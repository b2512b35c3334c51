//! Identity value types: cheap, structurally compared wrappers around the
//! protocol's identifier strings (rooms, events, users, transactions).
//!
//! Equality on every wrapper is equality of the underlying characters, which
//! is also what the contracts of the rest of the crate speak about (through
//! each type's view, a `Seq<char>`).

use vstd::prelude::*;

verus! {

/// Identifier of a room, e.g. `!abc:example.org`.
pub struct RoomId {
    pub raw: String,
}

/// Identifier a server assigned to an event, e.g. `$xyz`.
pub struct EventId {
    pub raw: String,
}

/// Client-generated correlation token for an outgoing message.
pub struct TransactionId {
    pub raw: String,
}

/// Identifier of a user, e.g. `@alice:example.org`.
pub struct UserId {
    pub raw: String,
}

impl View for RoomId {
    type V = Seq<char>;

    open spec fn view(&self) -> Seq<char> {
        self.raw@
    }
}

impl RoomId {
    pub fn new(raw: String) -> (r: RoomId)
        ensures
            r@ == raw@,
    {
        RoomId { raw }
    }

    pub fn as_str(&self) -> (r: &str)
        ensures
            r@ == self@,
    {
        self.raw.as_str()
    }
}

impl Clone for RoomId {
    fn clone(&self) -> (r: Self)
        ensures
            r@ == self@,
    {
        RoomId { raw: self.raw.clone() }
    }
}

impl PartialEq for RoomId {
    fn eq(&self, other: &Self) -> bool {
        self.raw == other.raw
    }
}

impl vstd::std_specs::cmp::PartialEqSpecImpl for RoomId {
    open spec fn obeys_eq_spec() -> bool {
        true
    }

    open spec fn eq_spec(&self, other: &Self) -> bool {
        self@ == other@
    }
}

impl View for EventId {
    type V = Seq<char>;

    open spec fn view(&self) -> Seq<char> {
        self.raw@
    }
}

impl EventId {
    pub fn new(raw: String) -> (r: EventId)
        ensures
            r@ == raw@,
    {
        EventId { raw }
    }

    pub fn as_str(&self) -> (r: &str)
        ensures
            r@ == self@,
    {
        self.raw.as_str()
    }
}

impl Clone for EventId {
    fn clone(&self) -> (r: Self)
        ensures
            r@ == self@,
    {
        EventId { raw: self.raw.clone() }
    }
}

impl PartialEq for EventId {
    fn eq(&self, other: &Self) -> bool {
        self.raw == other.raw
    }
}

impl vstd::std_specs::cmp::PartialEqSpecImpl for EventId {
    open spec fn obeys_eq_spec() -> bool {
        true
    }

    open spec fn eq_spec(&self, other: &Self) -> bool {
        self@ == other@
    }
}

impl View for TransactionId {
    type V = Seq<char>;

    open spec fn view(&self) -> Seq<char> {
        self.raw@
    }
}

impl TransactionId {
    /// Creates a fresh correlation token for an outgoing message.
    ///
    /// Relies on `ruma::TransactionId::new`: a randomly generated opaque
    /// token. Nothing is promised about its characters.
    #[verifier::external_body]
    pub fn new() -> TransactionId {
        TransactionId { raw: ruma::TransactionId::new().to_string() }
    }

    pub fn from_string(raw: String) -> (r: TransactionId)
        ensures
            r@ == raw@,
    {
        TransactionId { raw }
    }

    pub fn as_str(&self) -> (r: &str)
        ensures
            r@ == self@,
    {
        self.raw.as_str()
    }
}

impl Clone for TransactionId {
    fn clone(&self) -> (r: Self)
        ensures
            r@ == self@,
    {
        TransactionId { raw: self.raw.clone() }
    }
}

impl PartialEq for TransactionId {
    fn eq(&self, other: &Self) -> bool {
        self.raw == other.raw
    }
}

impl vstd::std_specs::cmp::PartialEqSpecImpl for TransactionId {
    open spec fn obeys_eq_spec() -> bool {
        true
    }

    open spec fn eq_spec(&self, other: &Self) -> bool {
        self@ == other@
    }
}

impl View for UserId {
    type V = Seq<char>;

    open spec fn view(&self) -> Seq<char> {
        self.raw@
    }
}

impl UserId {
    pub fn new(raw: String) -> (r: UserId)
        ensures
            r@ == raw@,
    {
        UserId { raw }
    }

    pub fn as_str(&self) -> (r: &str)
        ensures
            r@ == self@,
    {
        self.raw.as_str()
    }
}

impl Clone for UserId {
    fn clone(&self) -> (r: Self)
        ensures
            r@ == self@,
    {
        UserId { raw: self.raw.clone() }
    }
}

impl PartialEq for UserId {
    fn eq(&self, other: &Self) -> bool {
        self.raw == other.raw
    }
}

impl vstd::std_specs::cmp::PartialEqSpecImpl for UserId {
    open spec fn obeys_eq_spec() -> bool {
        true
    }

    open spec fn eq_spec(&self, other: &Self) -> bool {
        self@ == other@
    }
}

/// Whether a string is a well-formed protocol user identifier.
///
/// The exact grammar (sigil, localpart, server name) is the protocol
/// library's; this name stands for its verdict.
pub uninterp spec fn user_id_is_valid(s: Seq<char>) -> bool;

/// Relies on `ruma::UserId::parse`: accepts exactly the well-formed user
/// identifiers, a verdict that depends on the characters alone.
#[verifier::external_body]
pub fn parse_user_id(s: &str) -> (r: bool)
    ensures
        r == user_id_is_valid(s@),
{
    ruma::UserId::parse(s).is_ok()
}

} // verus!
