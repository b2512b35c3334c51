//! State of the one room currently open for viewing: its grouped timeline
//! and the operations that reconcile it.
//!
//! The timeline is an ordered sequence of event groups; consecutive entries
//! from one sender collapse into one group (a presentation choice). Three
//! sources mutate it out of band: live sync events appended at the back,
//! backfilled history prepended at the front, and locally optimistic sends
//! that are replaced once the server echo arrives. Every operation keys on
//! event identity, so duplicated delivery is tolerated.

use vstd::prelude::*;

use crate::util::{EventId, RoomId, TransactionId, UserId};

verus! {

/// Identity of a timeline entry: either a server-assigned event id or a
/// client-generated transaction id. The two are disjoint tags; a transaction
/// id and the server id of its echo are different identities, linked only by
/// the reconciliation step.
pub enum EventOrTxnId {
    EventId(EventId),
    TxnId(TransactionId),
}

/// The two identities name the same entry: same tag, same characters.
pub open spec fn same_identity(a: EventOrTxnId, b: EventOrTxnId) -> bool {
    match (a, b) {
        (EventOrTxnId::EventId(x), EventOrTxnId::EventId(y)) => x@ == y@,
        (EventOrTxnId::TxnId(x), EventOrTxnId::TxnId(y)) => x@ == y@,
        _ => false,
    }
}

impl Clone for EventOrTxnId {
    fn clone(&self) -> (r: Self)
        ensures
            same_identity(r, *self),
    {
        match self {
            EventOrTxnId::EventId(x) => EventOrTxnId::EventId(x.clone()),
            EventOrTxnId::TxnId(x) => EventOrTxnId::TxnId(x.clone()),
        }
    }
}

impl PartialEq for EventOrTxnId {
    fn eq(&self, other: &Self) -> bool {
        match (self, other) {
            (EventOrTxnId::EventId(x), EventOrTxnId::EventId(y)) => x == y,
            (EventOrTxnId::TxnId(x), EventOrTxnId::TxnId(y)) => x == y,
            _ => false,
        }
    }
}

impl vstd::std_specs::cmp::PartialEqSpecImpl for EventOrTxnId {
    open spec fn obeys_eq_spec() -> bool {
        true
    }

    open spec fn eq_spec(&self, other: &Self) -> bool {
        same_identity(*self, *other)
    }
}

/// What kind of event an entry renders; only room messages are in scope.
pub enum EventTypeState {
    RoomMessage { display_string: String },
}

impl Clone for EventTypeState {
    fn clone(&self) -> (r: Self)
        ensures
            r.display_string()@ == self.display_string()@,
    {
        match self {
            EventTypeState::RoomMessage { display_string } => EventTypeState::RoomMessage {
                display_string: display_string.clone(),
            },
        }
    }
}

impl EventTypeState {
    pub open spec fn display_string(&self) -> String {
        match self {
            EventTypeState::RoomMessage { display_string } => *display_string,
        }
    }
}

/// One timeline entry: identity, sender, rendered content.
pub struct EventState {
    pub id: EventOrTxnId,
    pub sender: UserId,
    pub event_type: EventTypeState,
}

/// Consecutive entries from one sender, collapsed for presentation.
pub struct EventGroupState {
    pub sender: UserId,
    pub sender_display_name: String,
    pub events: Vec<EventState>,
}

/// A group is displayable: nonempty, and every entry in it carries the
/// group's sender.
pub open spec fn group_wf(g: EventGroupState) -> bool {
    &&& g.events@.len() > 0
    &&& forall|j: int| 0 <= j < g.events@.len() ==> (#[trigger] g.events@[j]).sender@ == g.sender@
}

/// Every group in the timeline is displayable.
pub open spec fn groups_wf(tl: Seq<EventGroupState>) -> bool {
    forall|i: int| 0 <= i < tl.len() ==> group_wf(#[trigger] tl[i])
}

/// No two adjacent groups share a sender.
pub open spec fn grouped(tl: Seq<EventGroupState>) -> bool {
    forall|i: int| 0 <= i && i + 1 < tl.len() ==> (#[trigger] tl[i]).sender@ != tl[i + 1].sender@
}

/// The timeline's entries in display order, group structure flattened away.
pub open spec fn entries_of(tl: Seq<EventGroupState>) -> Seq<EventState>
    decreases tl.len(),
{
    if tl.len() == 0 {
        Seq::empty()
    } else {
        entries_of(tl.drop_last()) + tl.last().events@
    }
}

/// `entries_of` unfolded at the front rather than the back.
pub proof fn lemma_entries_of_unfold_front(tl: Seq<EventGroupState>)
    requires
        tl.len() > 0,
    ensures
        entries_of(tl) == tl.first().events@ + entries_of(tl.drop_first()),
    decreases tl.len(),
{
    if tl.len() == 1 {
        assert(tl.drop_last() =~= Seq::<EventGroupState>::empty());
        assert(tl.drop_first() =~= Seq::<EventGroupState>::empty());
        assert(entries_of(tl) =~= tl.first().events@ + entries_of(tl.drop_first()));
    } else {
        lemma_entries_of_unfold_front(tl.drop_last());
        assert(tl.drop_last().first() == tl.first());
        assert(tl.drop_last().drop_first() =~= tl.drop_first().drop_last());
        assert(tl.drop_first().last() == tl.last());
        assert(entries_of(tl) == entries_of(tl.drop_last()) + tl.last().events@);
        assert(entries_of(tl.drop_last()) == tl.first().events@ + entries_of(tl.drop_first().drop_last()));
        assert(entries_of(tl) =~= tl.first().events@ + (entries_of(tl.drop_first().drop_last())
            + tl.drop_first().last().events@));
        assert(entries_of(tl.drop_first()) == entries_of(tl.drop_first().drop_last())
            + tl.drop_first().last().events@);
    }
}

/// Whether a live or backfilled entry lands at the back or the front.
#[derive(Clone, Copy, PartialEq, Eq, Structural, Debug)]
pub enum Placement {
    Front,
    Back,
}

/// `g` is a brand-new group holding exactly `event`, labelled with `sender`.
pub open spec fn fresh_group(g: EventGroupState, sender: Seq<char>, event: EventState) -> bool {
    &&& g.sender@ == sender
    &&& g.sender_display_name@ == sender
    &&& g.events@ == seq![event]
}

/// `g` is `old_g` with `event` appended at the back of its entries.
pub open spec fn back_extended_group(g: EventGroupState, old_g: EventGroupState, event: EventState) -> bool {
    &&& g.sender@ == old_g.sender@
    &&& g.sender_display_name@ == old_g.sender_display_name@
    &&& g.events@ == old_g.events@.push(event)
}

/// `g` is `old_g` with `event` inserted at the front of its entries.
pub open spec fn front_extended_group(g: EventGroupState, old_g: EventGroupState, event: EventState) -> bool {
    &&& g.sender@ == old_g.sender@
    &&& g.sender_display_name@ == old_g.sender_display_name@
    &&& g.events@ == seq![event] + old_g.events@
}

/// The back-append step: extend the last group when the sender matches it,
/// else open a new group at the back.
pub open spec fn back_appended(tl: Seq<EventGroupState>, old_tl: Seq<EventGroupState>, sender: Seq<char>, event: EventState) -> bool {
    if old_tl.len() > 0 && old_tl.last().sender@ == sender {
        &&& tl.len() == old_tl.len()
        &&& forall|i: int| 0 <= i < old_tl.len() - 1 ==> tl[i] == old_tl[i]
        &&& back_extended_group(tl.last(), old_tl.last(), event)
    } else {
        &&& tl.len() == old_tl.len() + 1
        &&& forall|i: int| 0 <= i < old_tl.len() ==> tl[i] == old_tl[i]
        &&& fresh_group(tl.last(), sender, event)
    }
}

/// The front-prepend step: extend the first group when the sender matches
/// it, else open a new group at the front.
pub open spec fn front_prepended(tl: Seq<EventGroupState>, old_tl: Seq<EventGroupState>, sender: Seq<char>, event: EventState) -> bool {
    if old_tl.len() > 0 && old_tl.first().sender@ == sender {
        &&& tl.len() == old_tl.len()
        &&& forall|i: int| 1 <= i < old_tl.len() ==> tl[i] == old_tl[i]
        &&& front_extended_group(tl.first(), old_tl.first(), event)
    } else {
        &&& tl.len() == old_tl.len() + 1
        &&& forall|i: int| 0 <= i < old_tl.len() ==> tl[i + 1] == old_tl[i]
        &&& fresh_group(tl.first(), sender, event)
    }
}

/// Appending at the back adds exactly `event` at the end of the flattened
/// timeline.
pub proof fn lemma_back_appended_entries(tl: Seq<EventGroupState>, old_tl: Seq<EventGroupState>, sender: Seq<char>, event: EventState)
    requires
        back_appended(tl, old_tl, sender, event),
    ensures
        entries_of(tl) == entries_of(old_tl).push(event),
{
    if old_tl.len() > 0 && old_tl.last().sender@ == sender {
        assert(tl.drop_last() =~= old_tl.drop_last());
        assert(entries_of(tl) == entries_of(old_tl.drop_last()) + old_tl.last().events@.push(event));
        assert(entries_of(old_tl) == entries_of(old_tl.drop_last()) + old_tl.last().events@);
        assert(entries_of(tl) =~= entries_of(old_tl).push(event));
    } else {
        assert(tl.drop_last() =~= old_tl);
        assert(entries_of(tl) == entries_of(old_tl) + seq![event]);
        assert(entries_of(tl) =~= entries_of(old_tl).push(event));
    }
}

/// Prepending at the front adds exactly `event` before the flattened
/// timeline.
pub proof fn lemma_front_prepended_entries(tl: Seq<EventGroupState>, old_tl: Seq<EventGroupState>, sender: Seq<char>, event: EventState)
    requires
        front_prepended(tl, old_tl, sender, event),
    ensures
        entries_of(tl) == seq![event] + entries_of(old_tl),
{
    if old_tl.len() > 0 && old_tl.first().sender@ == sender {
        lemma_entries_of_unfold_front(tl);
        lemma_entries_of_unfold_front(old_tl);
        assert(tl.drop_first() =~= old_tl.drop_first());
        assert(entries_of(tl) == (seq![event] + old_tl.first().events@) + entries_of(old_tl.drop_first()));
        assert(entries_of(tl) =~= seq![event] + entries_of(old_tl));
    } else {
        lemma_entries_of_unfold_front(tl);
        assert(tl.drop_first() =~= old_tl);
        assert(entries_of(tl) == seq![event] + entries_of(old_tl));
    }
}

/// No two adjacent groups share a sender in a timeline built from appends
/// alone: the empty timeline is grouped, and each back-append and each
/// front-prepend keeps a grouped timeline grouped — a matching neighbour
/// absorbs the entry, and a new group only ever stands next to a group of
/// another sender.
pub proof fn lemma_append_preserves_grouping(
    tl: Seq<EventGroupState>,
    old_tl: Seq<EventGroupState>,
    sender: Seq<char>,
    event: EventState,
)
    requires
        grouped(old_tl),
        back_appended(tl, old_tl, sender, event) || front_prepended(tl, old_tl, sender, event),
    ensures
        grouped(Seq::<EventGroupState>::empty()),
        grouped(tl),
{
    if back_appended(tl, old_tl, sender, event) {
        if old_tl.len() > 0 && old_tl.last().sender@ == sender {
            assert forall|i: int| 0 <= i < tl.len()
                implies (#[trigger] tl[i]).sender@ == old_tl[i].sender@ by {}
            lemma_grouped_same_senders(old_tl, tl);
        } else {
            assert forall|i: int| 0 <= i && i + 1 < tl.len()
                implies (#[trigger] tl[i]).sender@ != tl[i + 1].sender@ by {
                if i + 1 < old_tl.len() {
                    assert(old_tl[i].sender@ != old_tl[i + 1].sender@);
                } else {
                    assert(tl[i] == old_tl[old_tl.len() - 1]);
                    assert(old_tl.last().sender@ != sender);
                }
            }
        }
    } else {
        if old_tl.len() > 0 && old_tl.first().sender@ == sender {
            assert forall|i: int| 0 <= i < tl.len()
                implies (#[trigger] tl[i]).sender@ == old_tl[i].sender@ by {
                if i >= 1 {
                    assert(tl[i] == old_tl[i]);
                }
            }
            lemma_grouped_same_senders(old_tl, tl);
        } else {
            assert forall|i: int| 0 <= i && i + 1 < tl.len()
                implies (#[trigger] tl[i]).sender@ != tl[i + 1].sender@ by {
                if i >= 1 {
                    assert(tl[i] == old_tl[i - 1]);
                    assert(tl[i + 1] == old_tl[i]);
                    assert(old_tl[i - 1].sender@ != old_tl[i].sender@);
                } else {
                    assert(tl[1] == old_tl[0]);
                    assert(old_tl.first().sender@ != sender);
                }
            }
        }
    }
}

/// Message-composition state of a joined room.
pub struct JoinedRoomState {
    pub message_input: String,
}

/// A room the account has left; composition is not offered.
pub struct LeftRoomState {}

/// A room the account is invited to but has not joined.
pub struct InvitedRoomState {}

/// Kind of the active room, deciding which input area is shown.
pub enum RoomKindState {
    Joined(JoinedRoomState),
    Left(LeftRoomState),
    Invited(InvitedRoomState),
}

impl RoomKindState {
    pub fn joined() -> (r: Self)
        ensures
            r matches RoomKindState::Joined(j) && j.message_input@ == Seq::<char>::empty(),
    {
        RoomKindState::Joined(JoinedRoomState { message_input: String::new() })
    }

    pub fn left() -> (r: Self)
        ensures
            r is Left,
    {
        RoomKindState::Left(LeftRoomState {})
    }

    pub fn invited() -> (r: Self)
        ensures
            r is Invited,
    {
        RoomKindState::Invited(InvitedRoomState {})
    }

    /// The kind for a freshly opened room of the given membership.
    pub fn from_kind(kind: crate::data::RoomKind) -> (r: Self)
        ensures
            kind == crate::data::RoomKind::Joined ==> (r matches RoomKindState::Joined(j)
                && j.message_input@ == Seq::<char>::empty()),
            kind == crate::data::RoomKind::Left ==> r is Left,
            kind == crate::data::RoomKind::Invited ==> r is Invited,
    {
        match kind {
            crate::data::RoomKind::Joined => Self::joined(),
            crate::data::RoomKind::Left => Self::left(),
            crate::data::RoomKind::Invited => Self::invited(),
        }
    }
}

/// Everything needed to open a room for viewing: the summary data and the
/// icon as fetched (or absent, when fetching or decoding it failed — that
/// failure is not propagated).
pub struct NewActiveRoomState {
    pub id: RoomId,
    pub icon: Option<Vec<u8>>,
    pub display_name: String,
    pub kind: RoomKindState,
}

impl NewActiveRoomState {
    /// Prepares the opening of the room summarized by `st`, with the icon
    /// the caller managed to fetch and decode (absence stands for any
    /// failure along that path).
    pub fn new(st: &crate::data::MinRoomState, icon: Option<Vec<u8>>) -> (r: Self)
        ensures
            r.id@ == st.id@,
            r.display_name@ == st.display_name@,
            r.icon == icon,
            st.kind == crate::data::RoomKind::Joined ==> r.kind is Joined,
            st.kind == crate::data::RoomKind::Left ==> r.kind is Left,
            st.kind == crate::data::RoomKind::Invited ==> r.kind is Invited,
    {
        NewActiveRoomState {
            id: st.id.clone(),
            icon,
            display_name: st.display_name.clone(),
            kind: RoomKindState::from_kind(st.kind),
        }
    }
}

/// State of the currently open room: identity, header data, the grouped
/// timeline, and the backward-pagination guard.
pub struct ActiveRoomState {
    pub id: RoomId,
    pub icon: Option<Vec<u8>>,
    pub display_name: String,
    pub timeline: Vec<EventGroupState>,
    pub kind: RoomKindState,
    pub pending_backfill: bool,
}

impl ActiveRoomState {
    /// Every group of the timeline is displayable.
    pub open spec fn wf(&self) -> bool {
        groups_wf(self.timeline@)
    }

    /// Opens the room described by `new` for viewing: a fresh, empty
    /// timeline and a cleared pagination guard. The state of whatever room
    /// was open before is discarded wholesale; nothing merges across rooms.
    pub fn open(new: NewActiveRoomState) -> (r: Self)
        ensures
            r.id@ == new.id@,
            r.display_name@ == new.display_name@,
            r.icon == new.icon,
            r.kind == new.kind,
            r.timeline@ == Seq::<EventGroupState>::empty(),
            !r.pending_backfill,
            r.wf(),
            grouped(r.timeline@),
    {
        ActiveRoomState {
            id: new.id,
            icon: new.icon,
            display_name: new.display_name,
            timeline: Vec::new(),
            kind: new.kind,
            pending_backfill: false,
        }
    }

    /// Appends (or, for backfill, prepends) one entry of the given sender.
    ///
    /// An event for a different room than the active one is discarded. An
    /// appended entry extends the neighbouring group when the sender
    /// matches, else it opens a new group; so a timeline without adjacent
    /// same-sender groups stays that way.
    pub fn add_event(&mut self, room_id: &RoomId, sender: &UserId, event: EventState, placement: Placement)
        requires
            old(self).wf(),
            event.sender@ == sender@,
        ensures
            final(self).wf(),
            final(self).id@ == old(self).id@,
            final(self).display_name@ == old(self).display_name@,
            final(self).icon == old(self).icon,
            final(self).kind == old(self).kind,
            final(self).pending_backfill == old(self).pending_backfill,
            room_id@ != old(self).id@ ==> final(self).timeline@ == old(self).timeline@,
            room_id@ == old(self).id@ && placement is Back ==> back_appended(
                final(self).timeline@,
                old(self).timeline@,
                sender@,
                event,
            ),
            room_id@ == old(self).id@ && placement is Front ==> front_prepended(
                final(self).timeline@,
                old(self).timeline@,
                sender@,
                event,
            ),
            grouped(old(self).timeline@) ==> grouped(final(self).timeline@),
    {
        if !(self.id == *room_id) {
            return;
        }
        let ghost old_tl = self.timeline@;
        match placement {
            Placement::Back => {
                let n = self.timeline.len();
                if n > 0 && self.timeline[n - 1].sender == *sender {
                    let group = &mut self.timeline[n - 1];
                    group.events.push(event);
                    proof {
                        assert(self.timeline@.last() == self.timeline@[n - 1]);
                        assert(forall|i: int| 0 <= i < old_tl.len() - 1 ==> self.timeline@[i] == old_tl[i]);
                        assert(back_extended_group(self.timeline@.last(), old_tl.last(), event));
                        assert(group_wf(self.timeline@.last()));
                        assert forall|i: int| 0 <= i < self.timeline@.len() implies group_wf(#[trigger] self.timeline@[i]) by {
                            if i < old_tl.len() - 1 {
                                assert(group_wf(old_tl[i]));
                            }
                        }
                        lemma_grouped_same_senders(old_tl, self.timeline@);
                    }
                } else {
                    let group = EventGroupState {
                        sender: sender.clone(),
                        sender_display_name: sender.as_str().to_owned(),
                        events: singleton(event),
                    };
                    self.timeline.push(group);
                    proof {
                        assert(self.timeline@.last() == self.timeline@[old_tl.len() as int]);
                        assert(fresh_group(self.timeline@.last(), sender@, event));
                        assert forall|i: int| 0 <= i < self.timeline@.len() implies group_wf(#[trigger] self.timeline@[i]) by {
                            if i < old_tl.len() {
                                assert(group_wf(old_tl[i]));
                            }
                        }
                        if grouped(old_tl) {
                            assert forall|i: int| 0 <= i && i + 1 < self.timeline@.len()
                                implies (#[trigger] self.timeline@[i]).sender@ != self.timeline@[i + 1].sender@ by {
                                if i + 1 < old_tl.len() {
                                    assert(old_tl[i].sender@ != old_tl[i + 1].sender@);
                                } else {
                                    assert(old_tl.len() > 0);
                                    assert(self.timeline@[i] == old_tl.last());
                                    assert(old_tl.last().sender@ != sender@);
                                }
                            }
                        }
                    }
                }
            }
            Placement::Front => {
                let front_matches = self.timeline.len() > 0 && self.timeline[0].sender == *sender;
                if front_matches {
                    let group = &mut self.timeline[0];
                    group.events.insert(0, event);
                    proof {
                        assert(group.events@ =~= seq![event] + old_tl.first().events@);
                        assert(self.timeline@.first() == self.timeline@[0]);
                        assert(front_extended_group(self.timeline@.first(), old_tl.first(), event));
                        assert forall|i: int| 0 <= i < self.timeline@.len() implies group_wf(#[trigger] self.timeline@[i]) by {
                            if i >= 1 {
                                assert(group_wf(old_tl[i]));
                            } else {
                                assert(forall|j: int| 0 <= j < old_tl.first().events@.len()
                                    ==> (#[trigger] old_tl.first().events@[j]).sender@ == old_tl.first().sender@);
                            }
                        }
                        lemma_grouped_same_senders(old_tl, self.timeline@);
                    }
                } else {
                    let group = EventGroupState {
                        sender: sender.clone(),
                        sender_display_name: sender.as_str().to_owned(),
                        events: singleton(event),
                    };
                    self.timeline.insert(0, group);
                    proof {
                        assert(self.timeline@.first() == self.timeline@[0]);
                        assert(forall|i: int| 0 <= i < old_tl.len() ==> self.timeline@[i + 1] == old_tl[i]);
                        assert(fresh_group(self.timeline@.first(), sender@, event));
                        assert forall|i: int| 0 <= i < self.timeline@.len() implies group_wf(#[trigger] self.timeline@[i]) by {
                            if i >= 1 {
                                assert(self.timeline@[i] == old_tl[i - 1]);
                                assert(group_wf(old_tl[i - 1]));
                            }
                        }
                        if grouped(old_tl) {
                            assert forall|i: int| 0 <= i && i + 1 < self.timeline@.len()
                                implies (#[trigger] self.timeline@[i]).sender@ != self.timeline@[i + 1].sender@ by {
                                if i >= 1 {
                                    assert(self.timeline@[i] == old_tl[i - 1]);
                                    assert(self.timeline@[i + 1] == old_tl[i]);
                                    assert(old_tl[i - 1].sender@ != old_tl[i].sender@);
                                } else {
                                    assert(old_tl.len() > 0);
                                    assert(self.timeline@[1] == old_tl[0]);
                                    assert(old_tl.first().sender@ != sender@);
                                }
                            }
                        }
                    }
                }
            }
        }
    }
}

/// A vector holding exactly the one given entry.
fn singleton(event: EventState) -> (r: Vec<EventState>)
    ensures
        r@ == seq![event],
{
    let mut r = Vec::new();
    r.push(event);
    proof {
        assert(r@ =~= seq![event]);
    }
    r
}

/// Two timelines whose groups carry pairwise equal senders are grouped (or
/// not) together.
proof fn lemma_grouped_same_senders(old_tl: Seq<EventGroupState>, tl: Seq<EventGroupState>)
    requires
        tl.len() == old_tl.len(),
        forall|i: int| 0 <= i < tl.len() ==> (#[trigger] tl[i]).sender@ == old_tl[i].sender@,
    ensures
        grouped(old_tl) ==> grouped(tl),
{
    if grouped(old_tl) {
        assert forall|i: int| 0 <= i && i + 1 < tl.len()
            implies (#[trigger] tl[i]).sender@ != tl[i + 1].sender@ by {
            assert(old_tl[i].sender@ != old_tl[i + 1].sender@);
        }
    }
}

/// Some entry carries the given identity.
pub open spec fn has_entry(entries: Seq<EventState>, id: EventOrTxnId) -> bool {
    exists|i: int| 0 <= i < entries.len() && same_identity(entries[i].id, id)
}

/// Index of the first entry carrying the given identity (meaningful only
/// when one exists).
pub open spec fn first_entry_index(entries: Seq<EventState>, id: EventOrTxnId) -> int
    decreases entries.len(),
{
    if entries.len() == 0 {
        0
    } else if same_identity(entries.first().id, id) {
        0
    } else {
        1 + first_entry_index(entries.drop_first(), id)
    }
}

/// The entries without the first one carrying the given identity; the
/// entries unchanged when none does.
pub open spec fn spec_remove_first(entries: Seq<EventState>, id: EventOrTxnId) -> Seq<EventState> {
    if has_entry(entries, id) {
        entries.remove(first_entry_index(entries, id))
    } else {
        entries
    }
}

/// How many entries carry the given identity.
pub open spec fn count_entries(entries: Seq<EventState>, id: EventOrTxnId) -> nat
    decreases entries.len(),
{
    if entries.len() == 0 {
        0
    } else {
        count_entries(entries.drop_first(), id) + if same_identity(entries.first().id, id) {
            1nat
        } else {
            0nat
        }
    }
}

/// `(g, e)` is the position of the first entry carrying `id`: the entry at
/// index `e` of group `g` matches, nothing earlier in that group does, and
/// nothing in any earlier group does.
pub open spec fn first_match_at(tl: Seq<EventGroupState>, id: EventOrTxnId, g: int, e: int) -> bool {
    &&& 0 <= g < tl.len()
    &&& 0 <= e < tl[g].events@.len()
    &&& same_identity(tl[g].events@[e].id, id)
    &&& forall|j: int| 0 <= j < e ==> !(#[trigger] same_identity(tl[g].events@[j].id, id))
    &&& forall|gg: int, j: int| 0 <= gg < g && 0 <= j < tl[gg].events@.len() ==> !(
    #[trigger] same_identity(tl[gg].events@[j].id, id))
}

/// `tl` is `old_tl` with the entry at position `(g, e)` removed: the group
/// is dropped whole exactly when that entry was its only one (a group
/// never stays empty); every other group keeps its place and content, and
/// a surviving group keeps its label and the order of its other entries.
pub open spec fn entry_removed_at(tl: Seq<EventGroupState>, old_tl: Seq<EventGroupState>, g: int, e: int) -> bool {
    if old_tl[g].events@.len() == 1 {
        &&& tl.len() == old_tl.len() - 1
        &&& forall|i: int| 0 <= i < g ==> tl[i] == old_tl[i]
        &&& forall|i: int| g <= i < tl.len() ==> tl[i] == old_tl[i + 1]
    } else {
        &&& tl.len() == old_tl.len()
        &&& forall|i: int| 0 <= i < tl.len() && i != g ==> tl[i] == old_tl[i]
        &&& tl[g].sender@ == old_tl[g].sender@
        &&& tl[g].sender_display_name@ == old_tl[g].sender_display_name@
        &&& tl[g].events@ == old_tl[g].events@.remove(e)
    }
}

/// `tl` is `old_tl` with the first entry carrying `id` removed at its
/// group position, and untouched when no entry carries it.
pub open spec fn timeline_entry_removed(tl: Seq<EventGroupState>, old_tl: Seq<EventGroupState>, id: EventOrTxnId) -> bool {
    if has_entry(entries_of(old_tl), id) {
        exists|g: int, e: int| #[trigger] first_match_at(old_tl, id, g, e) && entry_removed_at(
            tl,
            old_tl,
            g,
            e,
        )
    } else {
        tl == old_tl
    }
}

/// An index that matches and is preceded only by non-matches is the first
/// matching index.
proof fn lemma_first_is(entries: Seq<EventState>, id: EventOrTxnId, k: int)
    requires
        0 <= k < entries.len(),
        same_identity(entries[k].id, id),
        forall|j: int| 0 <= j < k ==> !same_identity(entries[j].id, id),
    ensures
        has_entry(entries, id),
        first_entry_index(entries, id) == k,
    decreases entries.len(),
{
    if k == 0 {
    } else {
        assert(!same_identity(entries.first().id, id));
        let rest = entries.drop_first();
        assert(rest[k - 1] == entries[k]);
        assert forall|j: int| 0 <= j < k - 1 implies !same_identity(rest[j].id, id) by {
            assert(rest[j] == entries[j + 1]);
        }
        lemma_first_is(rest, id, k - 1);
    }
}

/// Flattening distributes over concatenation of timelines.
proof fn lemma_entries_of_concat(a: Seq<EventGroupState>, b: Seq<EventGroupState>)
    ensures
        entries_of(a + b) == entries_of(a) + entries_of(b),
    decreases b.len(),
{
    if b.len() == 0 {
        assert(a + b =~= a);
        assert(entries_of(a) + entries_of(b) =~= entries_of(a));
    } else {
        lemma_entries_of_concat(a, b.drop_last());
        assert((a + b).drop_last() =~= a + b.drop_last());
        assert((a + b).last() == b.last());
        assert(entries_of(a + b) == (entries_of(a) + entries_of(b.drop_last())) + b.last().events@);
        assert(entries_of(b) == entries_of(b.drop_last()) + b.last().events@);
        assert(entries_of(a + b) =~= entries_of(a) + entries_of(b));
    }
}

/// A one-group timeline flattens to that group's entries.
proof fn lemma_entries_of_singleton(g: EventGroupState)
    ensures
        entries_of(seq![g]) == g.events@,
{
    assert(seq![g].drop_last() =~= Seq::<EventGroupState>::empty());
    assert(entries_of(Seq::<EventGroupState>::empty()) == Seq::<EventState>::empty());
    assert(seq![g].last() == g);
    assert(entries_of(seq![g]) =~= g.events@);
}

/// A timeline none of whose groups holds a matching entry flattens to a
/// sequence without one.
proof fn lemma_groups_no_match(tl: Seq<EventGroupState>, id: EventOrTxnId)
    requires
        forall|g: int, j: int| 0 <= g < tl.len() && 0 <= j < tl[g].events@.len()
            ==> !(#[trigger] same_identity(tl[g].events@[j].id, id)),
    ensures
        !has_entry(entries_of(tl), id),
    decreases tl.len(),
{
    if tl.len() > 0 {
        let front = tl.drop_last();
        assert forall|g: int, j: int| 0 <= g < front.len() && 0 <= j < front[g].events@.len()
            implies !(#[trigger] same_identity(front[g].events@[j].id, id)) by {
            assert(front[g] == tl[g]);
        }
        lemma_groups_no_match(front, id);
        if has_entry(entries_of(tl), id) {
            let i = choose|i: int| 0 <= i < entries_of(tl).len() && same_identity(entries_of(tl)[i].id, id);
            assert(entries_of(tl) == entries_of(front) + tl.last().events@);
            if i < entries_of(front).len() {
                assert(same_identity(entries_of(front)[i].id, id));
            } else {
                let j = i - entries_of(front).len();
                assert(same_identity(tl[tl.len() - 1].events@[j].id, id));
            }
        }
    }
}

/// Removing inside the middle part of a three-way concatenation.
proof fn lemma_remove_in_middle(a: Seq<EventState>, m: Seq<EventState>, b: Seq<EventState>, e: int)
    requires
        0 <= e < m.len(),
    ensures
        (a + m + b).remove(a.len() + e) == a + m.remove(e) + b,
{
    let whole = a + m + b;
    let k = a.len() + e;
    whole.remove_ensures(k);
    m.remove_ensures(e);
    let lhs = whole.remove(k);
    let rhs = a + m.remove(e) + b;
    assert(lhs.len() == rhs.len());
    assert forall|i: int| 0 <= i < lhs.len() implies lhs[i] == rhs[i] by {
        if i < k {
            assert(lhs[i] == whole[i]);
            if i < a.len() {
                assert(whole[i] == a[i]);
                assert(rhs[i] == a[i]);
            } else {
                assert(whole[i] == m[i - a.len()]);
                assert(rhs[i] == m.remove(e)[i - a.len()]);
                assert(m.remove(e)[i - a.len()] == m[i - a.len()]);
            }
        } else {
            assert(lhs[i] == whole[i + 1]);
            if i + 1 < a.len() + m.len() {
                assert(whole[i + 1] == m[i + 1 - a.len()]);
                assert(rhs[i] == m.remove(e)[i - a.len()]);
                assert(m.remove(e)[i - a.len()] == m[i - a.len() + 1]);
            } else {
                assert(whole[i + 1] == b[i + 1 - a.len() - m.len()]);
                assert(rhs[i] == b[i - a.len() - (m.len() - 1)]);
            }
        }
    }
    assert(lhs =~= rhs);
}

impl ActiveRoomState {
    /// Position of the first entry carrying the given identity: the group
    /// index and the index within that group, scanning groups in order.
    fn find_entry(&self, id: &EventOrTxnId) -> (r: Option<(usize, usize)>)
        ensures
            match r {
                Some(pos) => {
                    &&& (pos.0 as int) < self.timeline@.len()
                    &&& (pos.1 as int) < self.timeline@[pos.0 as int].events@.len()
                    &&& same_identity(self.timeline@[pos.0 as int].events@[pos.1 as int].id, *id)
                    &&& forall|j: int| 0 <= j < pos.1 ==> !(#[trigger] same_identity(
                        self.timeline@[pos.0 as int].events@[j].id,
                        *id,
                    ))
                    &&& forall|g: int, j: int| 0 <= g < pos.0 && 0 <= j < self.timeline@[g].events@.len()
                        ==> !(#[trigger] same_identity(self.timeline@[g].events@[j].id, *id))
                },
                None => forall|g: int, j: int| 0 <= g < self.timeline@.len()
                    && 0 <= j < self.timeline@[g].events@.len()
                    ==> !(#[trigger] same_identity(self.timeline@[g].events@[j].id, *id)),
            },
    {
        let mut g: usize = 0;
        while g < self.timeline.len()
            invariant
                g <= self.timeline@.len(),
                forall|gg: int, j: int| 0 <= gg < g && 0 <= j < self.timeline@[gg].events@.len()
                    ==> !(#[trigger] same_identity(self.timeline@[gg].events@[j].id, *id)),
            decreases self.timeline@.len() - g,
        {
            let events = &self.timeline[g].events;
            let mut e: usize = 0;
            while e < events.len()
                invariant
                    g < self.timeline@.len(),
                    events@ == self.timeline@[g as int].events@,
                    e <= events@.len(),
                    forall|j: int| 0 <= j < e ==> !(#[trigger] same_identity(events@[j].id, *id)),
                    forall|gg: int, j: int| 0 <= gg < g && 0 <= j < self.timeline@[gg].events@.len()
                        ==> !(#[trigger] same_identity(self.timeline@[gg].events@[j].id, *id)),
                decreases events@.len() - e,
            {
                if events[e].id == *id {
                    return Some((g, e));
                }
                e += 1;
            }
            g += 1;
        }
        None
    }

    /// Removes the entry with the given identity, searching all groups; a
    /// group left empty by the removal is removed whole. Finding no match
    /// is not an error: the timeline is left as it is.
    pub fn remove_event(&mut self, id: &EventOrTxnId) -> (removed: bool)
        requires
            old(self).wf(),
        ensures
            final(self).wf(),
            final(self).id@ == old(self).id@,
            final(self).display_name@ == old(self).display_name@,
            final(self).icon == old(self).icon,
            final(self).kind == old(self).kind,
            final(self).pending_backfill == old(self).pending_backfill,
            removed == has_entry(entries_of(old(self).timeline@), *id),
            !removed ==> final(self).timeline@ == old(self).timeline@,
            entries_of(final(self).timeline@) == spec_remove_first(entries_of(old(self).timeline@), *id),
            timeline_entry_removed(final(self).timeline@, old(self).timeline@, *id),
    {
        let ghost old_tl = self.timeline@;
        match self.find_entry(id) {
            None => {
                proof {
                    lemma_groups_no_match(old_tl, *id);
                }
                false
            }
            Some((g, e)) => {
                let ghost front = old_tl.subrange(0, g as int);
                let ghost back = old_tl.subrange(g as int + 1, old_tl.len() as int);
                let ghost mid = old_tl[g as int].events@;
                let ghost k = entries_of(front).len() + e;
                proof {
                    assert(old_tl =~= front + seq![old_tl[g as int]] + back);
                    lemma_entries_of_concat(front + seq![old_tl[g as int]], back);
                    lemma_entries_of_concat(front, seq![old_tl[g as int]]);
                    lemma_entries_of_singleton(old_tl[g as int]);
                    assert(entries_of(old_tl) == entries_of(front) + mid + entries_of(back));
                    // The found position is the first match of the flattened
                    // timeline.
                    assert forall|gg: int, j: int| 0 <= gg < front.len() && 0 <= j < front[gg].events@.len()
                        implies !(#[trigger] same_identity(front[gg].events@[j].id, *id)) by {
                        assert(front[gg] == old_tl[gg]);
                    }
                    lemma_groups_no_match(front, *id);
                    let flat = entries_of(old_tl);
                    assert(flat[k] == mid[e as int]);
                    assert(same_identity(flat[k].id, *id));
                    assert forall|j: int| 0 <= j < k implies !same_identity(flat[j].id, *id) by {
                        if j < entries_of(front).len() {
                            assert(flat[j] == entries_of(front)[j]);
                            assert(!has_entry(entries_of(front), *id));
                            if same_identity(flat[j].id, *id) {
                                assert(has_entry(entries_of(front), *id));
                            }
                        } else {
                            assert(flat[j] == mid[j - entries_of(front).len()]);
                        }
                    }
                    lemma_first_is(flat, *id, k);
                }
                if self.timeline[g].events.len() == 1 {
                    self.timeline.remove(g);
                    proof {
                        assert(e == 0);
                        assert(self.timeline@ =~= front + back);
                        lemma_entries_of_concat(front, back);
                        lemma_remove_in_middle(entries_of(front), mid, entries_of(back), e as int);
                        assert(mid.remove(0) =~= Seq::<EventState>::empty());
                        assert(entries_of(front) + mid.remove(0) + entries_of(back)
                            =~= entries_of(front) + entries_of(back));
                        assert(entries_of(self.timeline@) == entries_of(old_tl).remove(k));
                        assert forall|i: int| 0 <= i < self.timeline@.len()
                            implies group_wf(#[trigger] self.timeline@[i]) by {
                            if i < front.len() {
                                assert(self.timeline@[i] == old_tl[i]);
                            } else {
                                assert(self.timeline@[i] == old_tl[i + 1]);
                            }
                        }
                        assert(first_match_at(old_tl, *id, g as int, e as int));
                        assert(entry_removed_at(self.timeline@, old_tl, g as int, e as int));
                        assert(timeline_entry_removed(self.timeline@, old_tl, *id));
                    }
                } else {
                    let group = &mut self.timeline[g];
                    group.events.remove(e);
                    proof {
                        assert(group.events@ == mid.remove(e as int));
                        assert(self.timeline@ =~= front + seq![self.timeline@[g as int]] + back);
                        lemma_entries_of_concat(front + seq![self.timeline@[g as int]], back);
                        lemma_entries_of_concat(front, seq![self.timeline@[g as int]]);
                        lemma_entries_of_singleton(self.timeline@[g as int]);
                        lemma_remove_in_middle(entries_of(front), mid, entries_of(back), e as int);
                        assert(entries_of(self.timeline@) == entries_of(old_tl).remove(k));
                        mid.remove_ensures(e as int);
                        assert forall|i: int| 0 <= i < self.timeline@.len()
                            implies group_wf(#[trigger] self.timeline@[i]) by {
                            assert(group_wf(old_tl[i]));
                            if i == g as int {
                                assert(self.timeline@[i].events@.len() == mid.len() - 1);
                                assert forall|j: int| 0 <= j < self.timeline@[i].events@.len()
                                    implies (#[trigger] self.timeline@[i].events@[j]).sender@
                                        == self.timeline@[i].sender@ by {
                                    if j < e {
                                        assert(self.timeline@[i].events@[j] == mid[j]);
                                    } else {
                                        assert(self.timeline@[i].events@[j] == mid[j + 1]);
                                    }
                                }
                            } else {
                                assert(self.timeline@[i] == old_tl[i]);
                            }
                        }
                        assert(first_match_at(old_tl, *id, g as int, e as int));
                        assert(entry_removed_at(self.timeline@, old_tl, g as int, e as int));
                        assert(timeline_entry_removed(self.timeline@, old_tl, *id));
                    }
                }
                true
            }
        }
    }

    /// Applies the server echo of a locally sent message: the optimistic
    /// entry carrying the transaction id is removed first (absence is not an
    /// error), then the confirmed entry is appended at the back like any
    /// live event. Removal before insertion, so the message is never
    /// rendered twice.
    pub fn reconcile_echo(&mut self, room_id: &RoomId, txn: TransactionId, sender: &UserId, event: EventState)
        requires
            old(self).wf(),
            event.sender@ == sender@,
            event.id is EventId,
        ensures
            final(self).wf(),
            final(self).id@ == old(self).id@,
            final(self).display_name@ == old(self).display_name@,
            final(self).icon == old(self).icon,
            final(self).kind == old(self).kind,
            final(self).pending_backfill == old(self).pending_backfill,
            room_id@ != old(self).id@ ==> *final(self) == *old(self),
            room_id@ == old(self).id@ ==> entries_of(final(self).timeline@) == spec_remove_first(
                entries_of(old(self).timeline@),
                EventOrTxnId::TxnId(txn),
            ).push(event),
    {
        if !(self.id == *room_id) {
            return;
        }
        let marker = EventOrTxnId::TxnId(txn);
        let ghost old_tl = self.timeline@;
        self.remove_event(&marker);
        let ghost mid_tl = self.timeline@;
        self.add_event(room_id, sender, event, Placement::Back);
        proof {
            lemma_back_appended_entries(self.timeline@, mid_tl, sender@, event);
        }
    }

    /// Synthesizes the optimistic entry for a message the user submitted:
    /// a fresh transaction id, the composed text as rendered content,
    /// appended immediately like a live event. Returns the transaction id
    /// (the correlation token the network send must carry) and the text to
    /// send; returns nothing when the room is not joined.
    pub fn send_message(&mut self, own_user: &UserId) -> (r: Option<(TransactionId, String)>)
        requires
            old(self).wf(),
        ensures
            final(self).wf(),
            final(self).id@ == old(self).id@,
            final(self).display_name@ == old(self).display_name@,
            final(self).icon == old(self).icon,
            final(self).kind == old(self).kind,
            final(self).pending_backfill == old(self).pending_backfill,
            r is Some <==> old(self).kind is Joined,
            r is None ==> *final(self) == *old(self),
            r matches Some(out) ==> {
                &&& old(self).kind matches RoomKindState::Joined(j) && out.1@ == j.message_input@
                &&& exists|entry: EventState| {
                    &&& entry.id matches EventOrTxnId::TxnId(t) && t@ == out.0@
                    &&& entry.sender@ == own_user@
                    &&& entry.event_type.display_string()@ == out.1@
                    &&& back_appended(final(self).timeline@, old(self).timeline@, own_user@, entry)
                }
            },
            grouped(old(self).timeline@) ==> grouped(final(self).timeline@),
    {
        let text = match &self.kind {
            RoomKindState::Joined(j) => j.message_input.clone(),
            RoomKindState::Left(_) => {
                return None;
            }
            RoomKindState::Invited(_) => {
                return None;
            }
        };
        let txn = TransactionId::new();
        let entry = EventState {
            id: EventOrTxnId::TxnId(txn.clone()),
            sender: own_user.clone(),
            event_type: EventTypeState::RoomMessage { display_string: text.clone() },
        };
        let ghost entry_ghost = entry;
        let room = self.id.clone();
        self.add_event(&room, own_user, entry, Placement::Back);
        proof {
            assert(entry_ghost.id matches EventOrTxnId::TxnId(t) && t@ == txn@);
        }
        Some((txn, text))
    }

    /// Arms the backward-pagination guard. Returns whether a page request
    /// must actually be issued: while one is in flight, further triggers
    /// are suppressed, so two quick triggers issue exactly one request.
    pub fn request_backfill(&mut self) -> (started: bool)
        ensures
            final(self).pending_backfill,
            started == !old(self).pending_backfill,
            final(self).id@ == old(self).id@,
            final(self).display_name@ == old(self).display_name@,
            final(self).icon == old(self).icon,
            final(self).kind == old(self).kind,
            final(self).timeline == old(self).timeline,
    {
        let started = !self.pending_backfill;
        self.pending_backfill = true;
        started
    }

    /// Clears the backward-pagination guard once the requested page has
    /// been applied (or the request failed).
    pub fn finish_backfill(&mut self)
        ensures
            !final(self).pending_backfill,
            final(self).id@ == old(self).id@,
            final(self).display_name@ == old(self).display_name@,
            final(self).icon == old(self).icon,
            final(self).kind == old(self).kind,
            final(self).timeline == old(self).timeline,
    {
        self.pending_backfill = false;
    }
}

/// The entries after an echo reconciliation hold the confirmed entry
/// exactly once, at the back, and one fewer optimistic entry for the
/// transaction id; the logical message is never rendered twice.
pub proof fn lemma_echo_reconciliation(entries: Seq<EventState>, txn: EventOrTxnId, conf: EventState)
    requires
        txn is TxnId,
        conf.id is EventId,
        count_entries(entries, conf.id) == 0,
    ensures
        count_entries(spec_remove_first(entries, txn).push(conf), conf.id) == 1,
        spec_remove_first(entries, txn).push(conf).last() == conf,
        has_entry(entries, txn) ==> count_entries(spec_remove_first(entries, txn).push(conf), txn)
            == count_entries(entries, txn) - 1,
        !has_entry(entries, txn) ==> count_entries(spec_remove_first(entries, txn).push(conf), txn)
            == count_entries(entries, txn),
{
    let removed = spec_remove_first(entries, txn);
    lemma_same_identity_refl(conf.id);
    if has_entry(entries, txn) {
        let k = first_entry_index(entries, txn);
        lemma_first_characterization(entries, txn);
        lemma_count_remove(entries, txn, k);
        lemma_count_remove_other(entries, conf.id, k);
        assert(!same_identity(entries[k].id, conf.id));
        assert(count_entries(removed, conf.id) == 0);
    }
    lemma_count_push(removed, txn, conf);
    lemma_count_push(removed, conf.id, conf);
    assert(!same_identity(conf.id, txn));
}

/// Removal of a not-yet-looked-up optimistic entry and arrival of its
/// confirmation commute: both orders leave the same entries, hence the
/// same multiset of identities (no duplicate either way).
pub proof fn lemma_reconciliation_order_tolerant(entries: Seq<EventState>, txn: EventOrTxnId, conf: EventState)
    requires
        txn is TxnId,
        conf.id is EventId,
    ensures
        spec_remove_first(entries, txn).push(conf) == spec_remove_first(entries.push(conf), txn),
        spec_remove_first(entries, txn).push(conf).to_multiset() == spec_remove_first(
            entries.push(conf),
            txn,
        ).to_multiset(),
{
    let pushed = entries.push(conf);
    assert(!same_identity(conf.id, txn));
    if has_entry(entries, txn) {
        let k = first_entry_index(entries, txn);
        lemma_first_characterization(entries, txn);
        assert(same_identity(pushed[k].id, txn));
        assert forall|j: int| 0 <= j < k implies !same_identity(pushed[j].id, txn) by {
            assert(pushed[j] == entries[j]);
        }
        lemma_first_is(pushed, txn, k);
        entries.remove_ensures(k);
        pushed.remove_ensures(k);
        assert(entries.remove(k).push(conf) =~= pushed.remove(k));
    } else {
        if has_entry(pushed, txn) {
            let i = choose|i: int| 0 <= i < pushed.len() && same_identity(pushed[i].id, txn);
            if i < entries.len() {
                assert(same_identity(entries[i].id, txn));
            } else {
                assert(pushed[i] == conf);
            }
        }
        assert(spec_remove_first(pushed, txn) == pushed);
    }
}

/// Every identity names itself.
proof fn lemma_same_identity_refl(id: EventOrTxnId)
    ensures
        same_identity(id, id),
{
}

/// The first matching index, when a match exists, matches and is preceded
/// only by non-matches.
proof fn lemma_first_characterization(entries: Seq<EventState>, id: EventOrTxnId)
    requires
        has_entry(entries, id),
    ensures
        0 <= first_entry_index(entries, id) < entries.len(),
        same_identity(entries[first_entry_index(entries, id)].id, id),
        forall|j: int| 0 <= j < first_entry_index(entries, id) ==> !(#[trigger] same_identity(
            entries[j].id,
            id,
        )),
    decreases entries.len(),
{
    if same_identity(entries.first().id, id) {
    } else {
        let rest = entries.drop_first();
        let i = choose|i: int| 0 <= i < entries.len() && same_identity(entries[i].id, id);
        assert(i > 0);
        assert(rest[i - 1] == entries[i]);
        assert(has_entry(rest, id));
        lemma_first_characterization(rest, id);
        let k = first_entry_index(rest, id);
        assert(entries[k + 1] == rest[k]);
        assert forall|j: int| 0 <= j < k + 1 implies !(#[trigger] same_identity(entries[j].id, id)) by {
            if j > 0 {
                assert(rest[j - 1] == entries[j]);
            }
        }
    }
}

/// Removing the entry at a matching index lowers that identity's count by
/// one.
proof fn lemma_count_remove(entries: Seq<EventState>, id: EventOrTxnId, k: int)
    requires
        0 <= k < entries.len(),
        same_identity(entries[k].id, id),
    ensures
        count_entries(entries.remove(k), id) == count_entries(entries, id) - 1,
    decreases entries.len(),
{
    entries.remove_ensures(k);
    if k == 0 {
        assert(entries.remove(0) =~= entries.drop_first());
    } else {
        let rest = entries.drop_first();
        assert(rest[k - 1] == entries[k]);
        lemma_count_remove(rest, id, k - 1);
        assert(entries.remove(k).drop_first() =~= rest.remove(k - 1));
        assert(entries.remove(k).first() == entries.first());
    }
}

/// Removing an entry that does not carry an identity leaves that
/// identity's count unchanged.
proof fn lemma_count_remove_other(entries: Seq<EventState>, id: EventOrTxnId, k: int)
    requires
        0 <= k < entries.len(),
        !same_identity(entries[k].id, id),
    ensures
        count_entries(entries.remove(k), id) == count_entries(entries, id),
    decreases entries.len(),
{
    entries.remove_ensures(k);
    if k == 0 {
        assert(entries.remove(0) =~= entries.drop_first());
    } else {
        let rest = entries.drop_first();
        assert(rest[k - 1] == entries[k]);
        lemma_count_remove_other(rest, id, k - 1);
        assert(entries.remove(k).drop_first() =~= rest.remove(k - 1));
        assert(entries.remove(k).first() == entries.first());
    }
}

/// Appending one entry raises the count of the identity it carries by one
/// and leaves every other count unchanged.
proof fn lemma_count_push(entries: Seq<EventState>, id: EventOrTxnId, entry: EventState)
    ensures
        count_entries(entries.push(entry), id) == count_entries(entries, id) + if same_identity(
            entry.id,
            id,
        ) {
            1nat
        } else {
            0nat
        },
    decreases entries.len(),
{
    let pushed = entries.push(entry);
    assert(pushed.len() > 0);
    assert(count_entries(pushed, id) == count_entries(pushed.drop_first(), id)
        + if same_identity(pushed.first().id, id) {
            1nat
        } else {
            0nat
        });
    if entries.len() == 0 {
        assert(pushed.drop_first() =~= Seq::<EventState>::empty());
        assert(count_entries(Seq::<EventState>::empty(), id) == 0);
        assert(pushed.first() == entry);
        assert(count_entries(entries, id) == 0);
    } else {
        lemma_count_push(entries.drop_first(), id, entry);
        assert(pushed.drop_first() =~= entries.drop_first().push(entry));
        assert(pushed.first() == entries.first());
        assert(count_entries(entries, id) == count_entries(entries.drop_first(), id)
            + if same_identity(entries.first().id, id) {
                1nat
            } else {
                0nat
            });
    }
}

/// A match exists exactly when the identity's count is positive.
pub proof fn lemma_has_entry_count(entries: Seq<EventState>, id: EventOrTxnId)
    ensures
        has_entry(entries, id) <==> count_entries(entries, id) > 0,
    decreases entries.len(),
{
    if entries.len() > 0 {
        let rest = entries.drop_first();
        lemma_has_entry_count(rest, id);
        if same_identity(entries.first().id, id) {
            assert(same_identity(entries[0].id, id));
        } else {
            if has_entry(entries, id) {
                let i = choose|i: int| 0 <= i < entries.len() && same_identity(entries[i].id, id);
                assert(i > 0);
                assert(rest[i - 1] == entries[i]);
                assert(has_entry(rest, id));
            }
            if has_entry(rest, id) {
                let i = choose|i: int| 0 <= i < rest.len() && same_identity(rest[i].id, id);
                assert(entries[i + 1] == rest[i]);
            }
        }
    }
}

} // verus!
