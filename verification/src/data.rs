//! Application-level data: the login form, the per-user state behind it, and
//! the room registry that feeds the sidebar.
//!
//! The registry is a sequence of room summaries keyed by room id; its
//! invariant (`registry_wf`) is that no id occurs twice. `upsert` inserts or
//! replaces by id and is idempotent; the initial enumeration skips rooms that
//! carry a supersede (tombstone) marker.

pub mod active_room;

use vstd::prelude::*;

use crate::util::RoomId;

verus! {

/// Contents of the login form: the raw user identifier and password.
pub struct LoginState {
    pub user_id: String,
    pub password: String,
}

impl Default for LoginState {
    fn default() -> (r: Self)
        ensures
            r.user_id@ == Seq::<char>::empty(),
            r.password@ == Seq::<char>::empty(),
    {
        LoginState { user_id: String::new(), password: String::new() }
    }
}

impl Clone for LoginState {
    fn clone(&self) -> (r: Self)
        ensures
            r.user_id@ == self.user_id@,
            r.password@ == self.password@,
    {
        LoginState { user_id: self.user_id.clone(), password: self.password.clone() }
    }
}

/// Membership state of a room, deciding whether composition is permitted.
#[derive(Clone, Copy, PartialEq, Eq, Structural, Debug)]
pub enum RoomKind {
    Joined,
    Left,
    Invited,
}

/// Minimal per-room summary for the sidebar: id, display name, icon, kind.
pub struct MinRoomState {
    pub id: RoomId,
    pub display_name: String,
    pub icon: Option<Vec<u8>>,
    pub kind: RoomKind,
}

/// The display name the registry stores when the given computation result
/// is absent: a sentinel, never a propagated error.
pub open spec fn applied_display_name(computed: Option<String>) -> Seq<char> {
    match computed {
        Some(name) => name@,
        None => "<error>"@,
    }
}

impl MinRoomState {
    /// Builds a summary from a computed display name, applying the sentinel
    /// when the computation failed (the failure is not propagated).
    pub fn new(id: RoomId, display_name: Option<String>, icon: Option<Vec<u8>>, kind: RoomKind) -> (r: Self)
        ensures
            r.id@ == id@,
            r.display_name@ == applied_display_name(display_name),
            r.icon == icon,
            r.kind == kind,
    {
        let name = match display_name {
            Some(name) => name,
            None => "<error>".to_owned(),
        };
        MinRoomState { id, display_name: name, icon, kind }
    }
}

/// No room id occurs twice.
pub open spec fn registry_wf(rooms: Seq<MinRoomState>) -> bool {
    forall|i: int, j: int| 0 <= i < j < rooms.len() ==> rooms[i].id@ != rooms[j].id@
}

/// Some entry carries the given room id.
pub open spec fn spec_has_room(rooms: Seq<MinRoomState>, id: Seq<char>) -> bool {
    exists|i: int| 0 <= i < rooms.len() && rooms[i].id@ == id
}

/// Insert-or-replace by room id: the entry with `room`'s id is replaced in
/// place if present, else `room` is appended.
pub open spec fn spec_upsert(rooms: Seq<MinRoomState>, room: MinRoomState) -> Seq<MinRoomState> {
    if spec_has_room(rooms, room.id@) {
        rooms.update(choose|i: int| 0 <= i < rooms.len() && rooms[i].id@ == room.id@, room)
    } else {
        rooms.push(room)
    }
}

/// Mapping of room id to summary, in arrival order, for sidebar display.
pub struct RoomRegistry {
    pub rooms: Vec<MinRoomState>,
}

impl RoomRegistry {
    pub open spec fn wf(&self) -> bool {
        registry_wf(self.rooms@)
    }

    pub fn new() -> (r: Self)
        ensures
            r.rooms@ == Seq::<MinRoomState>::empty(),
            r.wf(),
    {
        RoomRegistry { rooms: Vec::new() }
    }

    /// Index of the entry carrying `id`, if any.
    fn find(&self, id: &RoomId) -> (r: Option<usize>)
        ensures
            match r {
                Some(i) => i < self.rooms@.len() && self.rooms@[i as int].id@ == id@
                    && forall|j: int| 0 <= j < i ==> self.rooms@[j].id@ != id@,
                None => !spec_has_room(self.rooms@, id@),
            },
    {
        let mut i: usize = 0;
        while i < self.rooms.len()
            invariant
                i <= self.rooms@.len(),
                forall|j: int| 0 <= j < i ==> self.rooms@[j].id@ != id@,
            decreases self.rooms@.len() - i,
        {
            if self.rooms[i].id == *id {
                return Some(i);
            }
            i += 1;
        }
        None
    }

    /// Inserts `room`, or replaces the summary already stored under its id.
    pub fn upsert(&mut self, room: MinRoomState)
        requires
            old(self).wf(),
        ensures
            final(self).wf(),
            final(self).rooms@ == spec_upsert(old(self).rooms@, room),
            spec_has_room(final(self).rooms@, room.id@),
    {
        let ghost rooms0 = self.rooms@;
        match self.find(&room.id) {
            Some(i) => {
                let ghost c = choose|k: int| 0 <= k < rooms0.len() && rooms0[k].id@ == room.id@;
                proof {
                    // The registry holds at most one entry per id, so the
                    // found index is the chosen one.
                    assert(rooms0[c].id@ == room.id@);
                    if c < i as int {
                        assert(rooms0[c].id@ != room.id@);
                    }
                    if i < c {
                        assert(rooms0[i as int].id@ != rooms0[c].id@);
                    }
                    assert(c == i as int);
                }
                let slot = &mut self.rooms[i];
                *slot = room;
                proof {
                    assert(self.rooms@ =~= spec_upsert(rooms0, room));
                    assert forall|a: int, b: int| 0 <= a < b < self.rooms@.len()
                        implies self.rooms@[a].id@ != self.rooms@[b].id@ by {
                        assert(rooms0[a].id@ != rooms0[b].id@);
                    }
                }
            }
            None => {
                self.rooms.push(room);
                proof {
                    assert(self.rooms@ =~= spec_upsert(rooms0, room));
                    assert forall|a: int, b: int| 0 <= a < b < self.rooms@.len()
                        implies self.rooms@[a].id@ != self.rooms@[b].id@ by {
                        if b == rooms0.len() {
                            assert(!spec_has_room(rooms0, room.id@));
                            assert(self.rooms@[a].id@ != room.id@);
                        } else {
                            assert(rooms0[a].id@ != rooms0[b].id@);
                        }
                    }
                }
            }
        }
        proof {
            assert(spec_has_room(self.rooms@, room.id@)) by {
                if spec_has_room(rooms0, room.id@) {
                    let c = choose|k: int| 0 <= k < rooms0.len() && rooms0[k].id@ == room.id@;
                    assert(self.rooms@[c].id@ == room.id@);
                } else {
                    assert(self.rooms@[rooms0.len() as int].id@ == room.id@);
                }
            }
        }
    }

    /// Whether a summary is stored under `id`.
    pub fn contains(&self, id: &RoomId) -> (r: bool)
        ensures
            r == spec_has_room(self.rooms@, id@),
    {
        self.find(id).is_some()
    }

    /// The summary stored under `id`, if any.
    pub fn get(&self, id: &RoomId) -> (r: Option<&MinRoomState>)
        ensures
            match r {
                Some(room) => spec_has_room(self.rooms@, id@) && room.id@ == id@,
                None => !spec_has_room(self.rooms@, id@),
            },
    {
        match self.find(id) {
            Some(i) => Some(&self.rooms[i]),
            None => None,
        }
    }

    pub fn len(&self) -> (r: usize)
        ensures
            r == self.rooms@.len(),
    {
        self.rooms.len()
    }
}

/// Applying `upsert` twice with identical content yields the same registry
/// as applying it once.
pub proof fn lemma_upsert_idempotent(rooms: Seq<MinRoomState>, room: MinRoomState)
    requires
        registry_wf(rooms),
    ensures
        spec_upsert(spec_upsert(rooms, room), room) == spec_upsert(rooms, room),
{
    let once = spec_upsert(rooms, room);
    if spec_has_room(rooms, room.id@) {
        let c = choose|i: int| 0 <= i < rooms.len() && rooms[i].id@ == room.id@;
        assert(once == rooms.update(c, room));
        assert(once[c].id@ == room.id@);
        assert(spec_has_room(once, room.id@));
        let c2 = choose|i: int| 0 <= i < once.len() && once[i].id@ == room.id@;
        // Any other index kept its old id, which differs from the chosen one.
        if c2 != c {
            assert(once[c2] == rooms[c2]);
            if c2 < c {
                assert(rooms[c2].id@ != rooms[c].id@);
            } else {
                assert(rooms[c].id@ != rooms[c2].id@);
            }
        }
        assert(c2 == c);
        assert(spec_upsert(once, room) =~= once);
    } else {
        assert(once == rooms.push(room));
        assert(once[rooms.len() as int].id@ == room.id@);
        assert(spec_has_room(once, room.id@));
        let c2 = choose|i: int| 0 <= i < once.len() && once[i].id@ == room.id@;
        if c2 != rooms.len() {
            assert(once[c2] == rooms[c2]);
            assert(!spec_has_room(rooms, room.id@));
            assert(rooms[c2].id@ != room.id@);
        }
        assert(c2 == rooms.len());
        assert(spec_upsert(once, room) =~= once);
    }
}

/// A room offered by the initial enumeration: its summary and whether a
/// supersede (tombstone) marker is set on it.
pub struct RoomSeed {
    pub state: MinRoomState,
    pub tombstoned: bool,
}

/// The registry contents after enumerating `seeds` in order: every room
/// without a tombstone is upserted, tombstoned rooms are skipped.
pub open spec fn spec_enumerate(seeds: Seq<RoomSeed>) -> Seq<MinRoomState>
    decreases seeds.len(),
{
    if seeds.len() == 0 {
        Seq::empty()
    } else {
        let rest = spec_enumerate(seeds.drop_last());
        let last = seeds.last();
        if last.tombstoned {
            rest
        } else {
            spec_upsert(rest, last.state)
        }
    }
}

/// Upserting adds the new id and keeps exactly the ids already present.
proof fn lemma_upsert_ids(rooms: Seq<MinRoomState>, room: MinRoomState, id: Seq<char>)
    ensures
        spec_has_room(spec_upsert(rooms, room), id) <==> (spec_has_room(rooms, id) || id == room.id@),
{
    let out = spec_upsert(rooms, room);
    if spec_has_room(rooms, room.id@) {
        let c = choose|i: int| 0 <= i < rooms.len() && rooms[i].id@ == room.id@;
        if spec_has_room(out, id) {
            let w = choose|i: int| 0 <= i < out.len() && out[i].id@ == id;
            if w != c {
                assert(rooms[w].id@ == id);
            }
        }
        if spec_has_room(rooms, id) {
            let w = choose|i: int| 0 <= i < rooms.len() && rooms[i].id@ == id;
            if w != c {
                assert(out[w].id@ == id);
            } else {
                assert(out[c].id@ == room.id@ && rooms[c].id@ == id);
            }
        }
        if id == room.id@ {
            assert(out[c].id@ == id);
        }
    } else {
        if spec_has_room(out, id) {
            let w = choose|i: int| 0 <= i < out.len() && out[i].id@ == id;
            if w < rooms.len() {
                assert(rooms[w].id@ == id);
            }
        }
        if spec_has_room(rooms, id) {
            let w = choose|i: int| 0 <= i < rooms.len() && rooms[i].id@ == id;
            assert(out[w].id@ == id);
        }
        if id == room.id@ {
            assert(out[rooms.len() as int].id@ == id);
        }
    }
}

/// A room with a supersede marker is absent from the enumerated registry;
/// every other offered room is present.
pub proof fn lemma_enumerate_membership(seeds: Seq<RoomSeed>, id: Seq<char>)
    ensures
        spec_has_room(spec_enumerate(seeds), id) <==> (exists|i: int|
            0 <= i < seeds.len() && !seeds[i].tombstoned && seeds[i].state.id@ == id),
    decreases seeds.len(),
{
    if seeds.len() == 0 {
    } else {
        let prefix = seeds.drop_last();
        let rest = spec_enumerate(prefix);
        let last = seeds.last();
        lemma_enumerate_membership(prefix, id);
        if last.tombstoned {
            if exists|i: int| 0 <= i < prefix.len() && !prefix[i].tombstoned && prefix[i].state.id@ == id {
                let w = choose|i: int| 0 <= i < prefix.len() && !prefix[i].tombstoned && prefix[i].state.id@ == id;
                assert(0 <= w < seeds.len() && !seeds[w].tombstoned && seeds[w].state.id@ == id);
            }
            if exists|i: int| 0 <= i < seeds.len() && !seeds[i].tombstoned && seeds[i].state.id@ == id {
                let w = choose|i: int| 0 <= i < seeds.len() && !seeds[i].tombstoned && seeds[i].state.id@ == id;
                assert(w < prefix.len() && prefix[w] == seeds[w]);
            }
        } else {
            lemma_upsert_ids(rest, last.state, id);
            if spec_has_room(rest, id) || id == last.state.id@ {
                if id == last.state.id@ {
                    assert(0 <= seeds.len() - 1 < seeds.len() && !seeds[seeds.len() - 1].tombstoned
                        && seeds[seeds.len() - 1].state.id@ == id);
                } else {
                    let w = choose|i: int| 0 <= i < prefix.len() && !prefix[i].tombstoned && prefix[i].state.id@ == id;
                    assert(0 <= w < seeds.len() && !seeds[w].tombstoned && seeds[w].state.id@ == id);
                }
            }
            if exists|i: int| 0 <= i < seeds.len() && !seeds[i].tombstoned && seeds[i].state.id@ == id {
                let w = choose|i: int| 0 <= i < seeds.len() && !seeds[i].tombstoned && seeds[i].state.id@ == id;
                if w < prefix.len() {
                    assert(prefix[w] == seeds[w]);
                } else {
                    assert(id == last.state.id@);
                }
            }
        }
    }
}

/// Enumerates the rooms the account belongs to at startup, building the
/// sidebar registry. Rooms with a supersede marker are excluded.
pub fn enumerate_initial(seeds: Vec<RoomSeed>) -> (reg: RoomRegistry)
    ensures
        reg.wf(),
        reg.rooms@ == spec_enumerate(seeds@),
        forall|id: Seq<char>| spec_has_room(reg.rooms@, id) <==> (exists|i: int|
            0 <= i < seeds@.len() && !seeds@[i].tombstoned && seeds@[i].state.id@ == id),
{
    let mut reg = RoomRegistry::new();
    let ghost all = seeds@;
    let mut seeds = seeds;
    let ghost mut i: int = 0;
    proof {
        assert(spec_enumerate(all.subrange(0, 0)) =~= Seq::<MinRoomState>::empty());
    }
    while seeds.len() > 0
        invariant
            0 <= i,
            i + seeds@.len() == all.len(),
            seeds@ == all.subrange(i, all.len() as int),
            reg.wf(),
            reg.rooms@ == spec_enumerate(all.subrange(0, i)),
        decreases seeds@.len(),
    {
        let ghost seeds_before = seeds@;
        let seed = seeds.remove(0);
        proof {
            assert(seed == all[i]);
            assert(all.subrange(0, i + 1).drop_last() =~= all.subrange(0, i));
            assert(all.subrange(0, i + 1).last() == all[i]);
            assert(seeds@ =~= all.subrange(i + 1, all.len() as int));
        }
        if !seed.tombstoned {
            reg.upsert(seed.state);
        }
        proof {
            i = i + 1;
        }
    }
    proof {
        assert(all.subrange(0, all.len() as int) =~= all);
        assert forall|id: Seq<char>| spec_has_room(reg.rooms@, id) <==> (exists|k: int|
            0 <= k < all.len() && !all[k].tombstoned && all[k].state.id@ == id) by {
            lemma_enumerate_membership(all, id);
        }
    }
    reg
}

/// Per-user application state: the sidebar registry and the one active room.
pub struct UserState {
    pub rooms: RoomRegistry,
    pub active_room: Option<active_room::ActiveRoomState>,
}

impl Default for UserState {
    fn default() -> (r: Self)
        ensures
            r.rooms.rooms@ == Seq::<MinRoomState>::empty(),
            r.rooms.wf(),
            r.active_room is None,
    {
        UserState { rooms: RoomRegistry::new(), active_room: None }
    }
}

impl UserState {
    /// Makes the described room the active one; the previously active
    /// room's state, if any, is discarded wholesale.
    pub fn set_active_room(&mut self, new: active_room::NewActiveRoomState)
        ensures
            final(self).rooms == old(self).rooms,
            final(self).active_room matches Some(room) && {
                &&& room.id@ == new.id@
                &&& room.display_name@ == new.display_name@
                &&& room.icon == new.icon
                &&& room.kind == new.kind
                &&& room.timeline@ == Seq::<active_room::EventGroupState>::empty()
                &&& !room.pending_backfill
                &&& room.wf()
            },
    {
        self.active_room = Some(active_room::ActiveRoomState::open(new));
    }
}

/// Top-level UI state: the login form, the waiting screen, or the
/// authenticated per-user state.
pub enum AppState {
    Login(LoginState),
    LoggingIn,
    LoggedIn(UserState),
}

impl AppState {
    /// The login flow completed: enter the authenticated state, with an
    /// empty sidebar and no room open yet.
    pub fn finish_login(&mut self)
        ensures
            *final(self) matches AppState::LoggedIn(u) && {
                &&& u.rooms.rooms@ == Seq::<MinRoomState>::empty()
                &&& u.active_room is None
            },
    {
        *self = AppState::LoggedIn(UserState::default());
    }
}

} // verus!
