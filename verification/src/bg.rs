//! The background session flow: the login state machine and the long-poll
//! sync driver.
//!
//! Network calls, persistence and scheduling stay with the caller; the
//! machine here decides, for each observed outcome, the next phase and the
//! one action the caller must perform. The sync driver keeps the "since"
//! cursor: it advances only on a successful batch and is persisted before
//! the next batch is processed, so a restart resumes no earlier than the
//! last fully applied batch.

pub mod event_handlers;

use vstd::prelude::*;

use crate::config::{opt_str_view, spec_persist_cursor, SessionRecord};
use crate::data::LoginState;
use crate::util::user_id_is_valid;
use crate::util::parse_user_id;

verus! {

/// Phase of the session: unauthenticated, awaiting the server's login
/// answer, or authenticated and syncing. `LoggedIn` is terminal for the
/// process lifetime.
#[derive(Clone, Copy, PartialEq, Eq, Structural, Debug)]
pub enum State {
    LoggedOut,
    LoggingIn,
    LoggedIn,
}

/// What the outside world reported to the session flow.
pub enum SessionEvent {
    /// The persisted session was restored into a working client.
    RestoreSucceeded,
    /// The persisted session could not be restored.
    RestoreFailed,
    /// The user submitted the login form.
    CredentialsSubmitted(LoginState),
    /// The server accepted the login; here is the session to keep.
    LoginSucceeded(SessionRecord),
    /// The server rejected the login; here is the error to display.
    LoginFailed(String),
}

/// The one thing the caller must do after a step.
pub enum SessionAction {
    /// Nothing: the event does not belong to the current phase.
    Ignore,
    /// Try to restore the persisted session, off the UI thread.
    AttemptRestore,
    /// Show the login form and wait for credentials.
    AwaitCredentials,
    /// Perform the network login with these (locally validated) credentials.
    BeginLogin(LoginState),
    /// The user identifier is malformed: reject locally, no network call.
    RejectCredentials,
    /// Persist this record, then start the sync loop.
    SaveSessionAndSync(SessionRecord),
    /// Start the sync loop (the restored record is already persisted).
    StartSync,
    /// Surface the server's login failure on the login form.
    ShowLoginError(String),
}

/// The transition table of the session flow. A submitted identifier is
/// validated before any network call; an event arriving in a phase it does
/// not belong to changes nothing.
pub open spec fn spec_step(s: State, event: SessionEvent) -> (State, SessionAction) {
    match (s, event) {
        (State::LoggedOut, SessionEvent::CredentialsSubmitted(c)) => if user_id_is_valid(
            c.user_id@,
        ) {
            (State::LoggingIn, SessionAction::BeginLogin(c))
        } else {
            (State::LoggedOut, SessionAction::RejectCredentials)
        },
        (State::LoggedOut, SessionEvent::RestoreSucceeded) => (
            State::LoggedIn,
            SessionAction::StartSync,
        ),
        (State::LoggedOut, SessionEvent::RestoreFailed) => (
            State::LoggedOut,
            SessionAction::AwaitCredentials,
        ),
        (State::LoggingIn, SessionEvent::LoginSucceeded(rec)) => (
            State::LoggedIn,
            SessionAction::SaveSessionAndSync(rec),
        ),
        (State::LoggingIn, SessionEvent::LoginFailed(e)) => (
            State::LoggedOut,
            SessionAction::ShowLoginError(e),
        ),
        _ => (s, SessionAction::Ignore),
    }
}

/// The session flow's mutable state: its current phase.
pub struct SessionFlow {
    pub state: State,
}

impl SessionFlow {
    /// At process start: begin logged out, and attempt restoration exactly
    /// when a persisted session exists (bypassing the login form).
    pub fn on_startup(saved_session: bool) -> (r: (SessionFlow, SessionAction))
        ensures
            r.0.state == State::LoggedOut,
            saved_session ==> r.1 == SessionAction::AttemptRestore,
            !saved_session ==> r.1 == SessionAction::AwaitCredentials,
    {
        let flow = SessionFlow { state: State::LoggedOut };
        if saved_session {
            (flow, SessionAction::AttemptRestore)
        } else {
            (flow, SessionAction::AwaitCredentials)
        }
    }

    /// Advances the flow by one observed event, following `spec_step`.
    /// The sync loop is started exactly on the transition into `LoggedIn`,
    /// which happens at most once: `LoggedIn` is terminal.
    pub fn step(&mut self, event: SessionEvent) -> (action: SessionAction)
        ensures
            final(self).state == spec_step(old(self).state, event).0,
            action == spec_step(old(self).state, event).1,
            (action is StartSync || action is SaveSessionAndSync) <==> (final(self).state
                is LoggedIn && !(old(self).state is LoggedIn)),
            old(self).state is LoggedIn ==> final(self).state is LoggedIn,
    {
        match (self.state, event) {
            (State::LoggedOut, SessionEvent::CredentialsSubmitted(c)) => {
                if parse_user_id(c.user_id.as_str()) {
                    self.state = State::LoggingIn;
                    SessionAction::BeginLogin(c)
                } else {
                    SessionAction::RejectCredentials
                }
            }
            (State::LoggedOut, SessionEvent::RestoreSucceeded) => {
                self.state = State::LoggedIn;
                SessionAction::StartSync
            }
            (State::LoggedOut, SessionEvent::RestoreFailed) => {
                SessionAction::AwaitCredentials
            }
            (State::LoggingIn, SessionEvent::LoginSucceeded(rec)) => {
                self.state = State::LoggedIn;
                SessionAction::SaveSessionAndSync(rec)
            }
            (State::LoggingIn, SessionEvent::LoginFailed(e)) => {
                self.state = State::LoggedOut;
                SessionAction::ShowLoginError(e)
            }
            _ => SessionAction::Ignore,
        }
    }
}

/// Builds the record to persist from the fields of a successful login
/// answer, before the flow advances: a crash between login and first sync
/// must not lose the credential.
pub fn session_from_login(
    user_id: String,
    device_id: String,
    access_token: String,
    refresh_token: Option<String>,
) -> (r: SessionRecord)
    ensures
        r.user_id@ == user_id@,
        r.device_id@ == device_id@,
        r.access_token@ == access_token@,
        r.refresh_token == refresh_token,
        r.sync_cursor is None,
{
    SessionRecord { user_id, device_id, access_token, refresh_token, sync_cursor: None }
}

/// The cursor a driver resumed from this record will offer first.
pub open spec fn spec_resume_cursor(record: SessionRecord) -> Option<Seq<char>> {
    opt_str_view(record.sync_cursor)
}

/// Keeper of the long-poll resumption cursor. One request is in flight at
/// a time; the caller blocks on it and reports the outcome here.
pub struct SyncDriver {
    pub cursor: Option<String>,
}

impl SyncDriver {
    /// A driver resuming from the persisted record: its first request uses
    /// the record's cursor, no earlier one.
    pub fn resume(record: &SessionRecord) -> (r: SyncDriver)
        ensures
            opt_str_view(r.cursor) == spec_resume_cursor(*record),
    {
        SyncDriver { cursor: crate::config::clone_opt_string(&record.sync_cursor) }
    }

    /// A driver for a session that has never synced.
    pub fn start_fresh() -> (r: SyncDriver)
        ensures
            r.cursor is None,
    {
        SyncDriver { cursor: None }
    }

    /// The "since" cursor the next long-poll request must carry.
    pub fn next_since(&self) -> (r: &Option<String>)
        ensures
            *r == self.cursor,
    {
        &self.cursor
    }

    /// A batch arrived: the driver advances to the batch's cursor and the
    /// record stores it, to be persisted before the next batch is
    /// processed. Handlers must tolerate seeing a batch twice (they key on
    /// event identity), so at-least-once persistence suffices.
    pub fn apply_batch(&mut self, record: &mut SessionRecord, new_cursor: String)
        ensures
            opt_str_view(final(self).cursor) == Some(new_cursor@),
            *final(record) == spec_persist_cursor(*old(record), new_cursor),
            opt_str_view(final(record).sync_cursor) == Some(new_cursor@),
    {
        record.persist_cursor(new_cursor.clone());
        proof {
            // The persisted clone reads back as the same characters.
            assert(opt_str_view(record.sync_cursor) == Some(new_cursor@));
        }
        self.cursor = Some(new_cursor);
    }

    /// The request failed: the cursor does not advance; the same cursor is
    /// retried after the caller's own backoff.
    pub fn on_batch_failure(&mut self)
        ensures
            *final(self) == *old(self),
    {
    }
}

/// After cursor `c` is persisted into the record, a restart — a fresh
/// driver resumed from that record — issues its next request with `c`,
/// however much of the batch that produced `c` was handled.
pub proof fn lemma_cursor_durability(record: SessionRecord, cursor: String)
    ensures
        spec_resume_cursor(spec_persist_cursor(record, cursor)) == Some(cursor@),
{
}

} // verus!
