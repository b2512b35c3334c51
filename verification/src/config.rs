//! The persisted session record and the decoding of its file.
//!
//! The file holds a small JSON object `{ "session"?: { "user_id",
//! "device_id", "access_token", "refresh_token"?, "sync_cursor"? } }`. An
//! absent file (or an absent or null `session` member) is the meaningful
//! "no session" state, not an error; any other malformed content is a fatal
//! startup error. Reading and writing the file is the caller's business;
//! this module decides what the text means.

use vstd::prelude::*;

verus! {

/// The credentials and resumption state that must survive a restart.
#[derive(Debug)]
pub struct SessionRecord {
    pub user_id: String,
    pub device_id: String,
    pub access_token: String,
    pub refresh_token: Option<String>,
    pub sync_cursor: Option<String>,
}

/// View of an optional string as its optional characters.
pub open spec fn opt_str_view(o: Option<String>) -> Option<Seq<char>> {
    match o {
        Some(s) => Some(s@),
        None => None,
    }
}

/// Copies an optional string.
pub fn clone_opt_string(o: &Option<String>) -> (r: Option<String>)
    ensures
        opt_str_view(r) == opt_str_view(*o),
{
    match o {
        Some(s) => Some(s.clone()),
        None => None,
    }
}

impl Clone for SessionRecord {
    fn clone(&self) -> (r: Self)
        ensures
            r.user_id@ == self.user_id@,
            r.device_id@ == self.device_id@,
            r.access_token@ == self.access_token@,
            opt_str_view(r.refresh_token) == opt_str_view(self.refresh_token),
            opt_str_view(r.sync_cursor) == opt_str_view(self.sync_cursor),
    {
        SessionRecord {
            user_id: self.user_id.clone(),
            device_id: self.device_id.clone(),
            access_token: self.access_token.clone(),
            refresh_token: clone_opt_string(&self.refresh_token),
            sync_cursor: clone_opt_string(&self.sync_cursor),
        }
    }
}

/// The record as it stands after the cursor is stored in it.
pub open spec fn spec_persist_cursor(record: SessionRecord, cursor: String) -> SessionRecord {
    SessionRecord { sync_cursor: Some(cursor), ..record }
}

impl SessionRecord {
    /// Stores the newest sync cursor, to be persisted before the next
    /// batch is processed: a restart then resumes no earlier than the last
    /// fully applied batch.
    pub fn persist_cursor(&mut self, cursor: String)
        ensures
            *final(self) == spec_persist_cursor(*old(self), cursor),
            opt_str_view(final(self).sync_cursor) == Some(cursor@),
    {
        self.sync_cursor = Some(cursor);
    }
}

/// Why loading the persisted state failed. Absence of the file is not
/// among these: it stands for "no session" and is not a failure.
#[derive(Clone, Copy, PartialEq, Eq, Structural, Debug)]
pub enum ConfigError {
    /// The file's text is not a JSON object.
    MalformedFile,
    /// The `session` member does not hold a usable record.
    MalformedSession,
}

/// The whole persisted state: at most one session record.
#[derive(Debug)]
pub struct Config {
    pub session: Option<SessionRecord>,
}

impl Default for Config {
    fn default() -> (r: Self)
        ensures
            r.session is None,
    {
        Config { session: None }
    }
}

#[verifier::external_type_specification]
#[verifier::external_body]
pub struct ExValue(serde_json::Value);

// What the decoder reads of a parsed document is named twice over: once as
// a function of the file's characters (so `load`'s contract speaks of its
// input alone), and once as a function of the opaque parsed value (so the
// wrappers below can speak of what they return). The parse wrapper's
// contract ties the two layers together: the parsed value is a function of
// the text, so everything later read from it is too.

/// Whether the characters are a well-formed JSON document.
pub uninterp spec fn json_wf(s: Seq<char>) -> bool;

/// Whether the document the characters encode is a JSON object.
pub uninterp spec fn json_doc_is_object(s: Seq<char>) -> bool;

/// What the document holds at a JSON-pointer path: `None` when nothing is
/// there, `Some(None)` for a value that is not a string, `Some(Some(w))`
/// for the string `w`.
pub uninterp spec fn json_path_str(s: Seq<char>, path: Seq<char>) -> Option<Option<Seq<char>>>;

/// Whether the document holds a null at a JSON-pointer path.
pub uninterp spec fn json_path_null(s: Seq<char>, path: Seq<char>) -> bool;

/// Whether the parsed value is a JSON object.
pub uninterp spec fn value_is_object(v: serde_json::Value) -> bool;

/// Whether the parsed value is a JSON null.
pub uninterp spec fn value_is_null(v: serde_json::Value) -> bool;

/// The parsed value's characters, when it is a JSON string.
pub uninterp spec fn value_str(v: serde_json::Value) -> Option<Seq<char>>;

/// What the parsed value holds at a JSON-pointer path, encoded as
/// `json_path_str` is.
pub uninterp spec fn value_path_str(v: serde_json::Value, path: Seq<char>) -> Option<Option<Seq<char>>>;

/// Whether the parsed value holds a null at a JSON-pointer path.
pub uninterp spec fn value_path_null(v: serde_json::Value, path: Seq<char>) -> bool;

/// Relies on `serde_json::from_str::<serde_json::Value>`: parses the text
/// as JSON, `None` exactly for invalid JSON. The parsed value is a
/// function of the text alone, so what the other wrappers read from it is
/// the text's content, named above.
#[verifier::external_body]
fn json_parse(text: &str) -> (r: Option<serde_json::Value>)
    ensures
        r is Some <==> json_wf(text@),
        r matches Some(v) ==> value_is_object(v) == json_doc_is_object(text@),
        r matches Some(v) ==> forall|p: Seq<char>| #[trigger] value_path_str(v, p)
            == json_path_str(text@, p),
        r matches Some(v) ==> forall|p: Seq<char>| #[trigger] value_path_null(v, p)
            == json_path_null(text@, p),
{
    serde_json::from_str::<serde_json::Value>(text).ok()
}

/// Relies on `serde_json::Value::pointer`: resolves a JSON-pointer path
/// (`/a/b` walks member `a`, then member `b`), `None` when nothing is
/// there; a function of the value and path alone, never panicking.
#[verifier::external_body]
fn json_pointer<'a>(v: &'a serde_json::Value, path: &str) -> (r: Option<&'a serde_json::Value>)
    ensures
        r is Some <==> value_path_str(*v, path@) is Some,
        r matches Some(m) ==> (value_path_str(*v, path@) matches Some(w) && value_str(*m) == w),
        r matches Some(m) ==> value_is_null(*m) == value_path_null(*v, path@),
{
    v.pointer(path)
}

/// Relies on `serde_json::Value::as_str`: the characters exactly when the
/// value is a JSON string.
#[verifier::external_body]
fn json_as_str(v: &serde_json::Value) -> (r: Option<&str>)
    ensures
        r is Some <==> value_str(*v) is Some,
        r matches Some(t) ==> value_str(*v) == Some(t@),
{
    v.as_str()
}

/// Relies on `serde_json::Value::is_object`.
#[verifier::external_body]
fn json_is_object(v: &serde_json::Value) -> (r: bool)
    ensures
        r == value_is_object(*v),
{
    v.is_object()
}

/// Relies on `serde_json::Value::is_null`.
#[verifier::external_body]
fn json_is_null(v: &serde_json::Value) -> (r: bool)
    ensures
        r == value_is_null(*v),
{
    v.is_null()
}

/// What the file offered under one member name.
pub enum JsonField {
    /// The member is not there.
    Absent,
    /// The member is there but is not a string.
    Invalid,
    /// The member is the string held here.
    Str(String),
}

/// Reads the member at a JSON-pointer path of `v` as a `JsonField`.
fn read_field(v: &serde_json::Value, path: &str) -> (f: JsonField)
    ensures
        f is Absent <==> value_path_str(*v, path@) is None,
        f is Invalid <==> (value_path_str(*v, path@) matches Some(w) && w is None),
        f matches JsonField::Str(t) ==> value_path_str(*v, path@) == Some(Some(t@)),
        (value_path_str(*v, path@) matches Some(w) && w is Some) ==> f is Str,
{
    match json_pointer(v, path) {
        None => JsonField::Absent,
        Some(m) => match json_as_str(m) {
            Some(t) => JsonField::Str(t.to_owned()),
            None => JsonField::Invalid,
        },
    }
}

/// The decode result at a path is a string member.
pub open spec fn member_is_str(m: Option<Option<Seq<char>>>) -> bool {
    m matches Some(w) && w is Some
}

/// The decode result at a path is an absent member.
pub open spec fn member_absent(m: Option<Option<Seq<char>>>) -> bool {
    m is None
}

/// The characters of a string member (meaningful only under
/// `member_is_str`).
pub open spec fn member_chars(m: Option<Option<Seq<char>>>) -> Seq<char> {
    match m {
        Some(Some(w)) => w,
        _ => Seq::empty(),
    }
}

/// The file's text is a JSON object, the only acceptable top level.
pub open spec fn text_is_config_object(s: Seq<char>) -> bool {
    json_wf(s) && json_doc_is_object(s)
}

/// The text's `session` member is missing or null: the meaningful "no
/// session" state.
pub open spec fn text_has_no_session(s: Seq<char>) -> bool {
    json_path_str(s, "/session"@) is None || json_path_null(s, "/session"@)
}

/// The text's `session` member holds a usable record: the three
/// credentials are strings; the refresh token and the sync cursor are
/// strings or absent.
pub open spec fn text_session_usable(s: Seq<char>) -> bool {
    &&& member_is_str(json_path_str(s, "/session/user_id"@))
    &&& member_is_str(json_path_str(s, "/session/device_id"@))
    &&& member_is_str(json_path_str(s, "/session/access_token"@))
    &&& (member_is_str(json_path_str(s, "/session/refresh_token"@)) || member_absent(
        json_path_str(s, "/session/refresh_token"@),
    ))
    &&& (member_is_str(json_path_str(s, "/session/sync_cursor"@)) || member_absent(
        json_path_str(s, "/session/sync_cursor"@),
    ))
}

/// Builds the session record from the five members of the `session`
/// object. The three credentials are required strings; the refresh token
/// and the sync cursor may be absent. Anything else is a malformed
/// session, a fatal startup error.
pub fn session_from_fields(
    user_id: JsonField,
    device_id: JsonField,
    access_token: JsonField,
    refresh_token: JsonField,
    sync_cursor: JsonField,
) -> (r: Result<SessionRecord, ConfigError>)
    ensures
        r is Ok <==> (user_id is Str && device_id is Str && access_token is Str
            && (refresh_token is Str || refresh_token is Absent)
            && (sync_cursor is Str || sync_cursor is Absent)),
        r is Err ==> r == Result::<SessionRecord, ConfigError>::Err(ConfigError::MalformedSession),
        r matches Ok(rec) ==> {
            &&& user_id matches JsonField::Str(s) && rec.user_id@ == s@
            &&& device_id matches JsonField::Str(s) && rec.device_id@ == s@
            &&& access_token matches JsonField::Str(s) && rec.access_token@ == s@
            &&& match refresh_token {
                JsonField::Str(s) => opt_str_view(rec.refresh_token) == Some(s@),
                _ => rec.refresh_token is None,
            }
            &&& match sync_cursor {
                JsonField::Str(s) => opt_str_view(rec.sync_cursor) == Some(s@),
                _ => rec.sync_cursor is None,
            }
        },
{
    let user_id = match user_id {
        JsonField::Str(s) => s,
        _ => {
            return Err(ConfigError::MalformedSession);
        }
    };
    let device_id = match device_id {
        JsonField::Str(s) => s,
        _ => {
            return Err(ConfigError::MalformedSession);
        }
    };
    let access_token = match access_token {
        JsonField::Str(s) => s,
        _ => {
            return Err(ConfigError::MalformedSession);
        }
    };
    let refresh_token = match refresh_token {
        JsonField::Str(s) => Some(s),
        JsonField::Absent => None,
        JsonField::Invalid => {
            return Err(ConfigError::MalformedSession);
        }
    };
    let sync_cursor = match sync_cursor {
        JsonField::Str(s) => Some(s),
        JsonField::Absent => None,
        JsonField::Invalid => {
            return Err(ConfigError::MalformedSession);
        }
    };
    Ok(SessionRecord { user_id, device_id, access_token, refresh_token, sync_cursor })
}

/// Decodes the persisted state from the file's text; `None` stands for an
/// absent file and means "no session". The `session` member may be absent
/// or null, also meaning "no session"; a file that is not a JSON object,
/// or a session without the required credential strings, is a fatal error.
pub fn load(text: Option<&str>) -> (r: Result<Config, ConfigError>)
    ensures
        text is None ==> (r matches Ok(c) && c.session is None),
        text matches Some(t) ==> {
            &&& (r == Result::<Config, ConfigError>::Err(ConfigError::MalformedFile)
                <==> !text_is_config_object(t@))
            &&& ((r matches Ok(c) && c.session is None) <==> (text_is_config_object(t@)
                && text_has_no_session(t@)))
            &&& (r == Result::<Config, ConfigError>::Err(ConfigError::MalformedSession)
                <==> (text_is_config_object(t@) && !text_has_no_session(t@)
                && !text_session_usable(t@)))
            &&& ((r matches Ok(c) && c.session is Some) <==> (text_is_config_object(t@)
                && !text_has_no_session(t@) && text_session_usable(t@)))
            &&& (r matches Ok(c) ==> (c.session matches Some(rec) ==> {
                &&& rec.user_id@ == member_chars(json_path_str(t@, "/session/user_id"@))
                &&& rec.device_id@ == member_chars(json_path_str(t@, "/session/device_id"@))
                &&& rec.access_token@ == member_chars(json_path_str(t@, "/session/access_token"@))
                &&& (rec.refresh_token matches Some(x) ==> json_path_str(
                    t@,
                    "/session/refresh_token"@,
                ) == Some(Some(x@)))
                &&& (rec.refresh_token is None ==> member_absent(json_path_str(
                    t@,
                    "/session/refresh_token"@,
                )))
                &&& (rec.sync_cursor matches Some(x) ==> json_path_str(
                    t@,
                    "/session/sync_cursor"@,
                ) == Some(Some(x@)))
                &&& (rec.sync_cursor is None ==> member_absent(json_path_str(
                    t@,
                    "/session/sync_cursor"@,
                )))
            }))
        },
{
    let text = match text {
        None => {
            return Ok(Config { session: None });
        }
        Some(t) => t,
    };
    let value = match json_parse(text) {
        Some(v) => v,
        None => {
            return Err(ConfigError::MalformedFile);
        }
    };
    if !json_is_object(&value) {
        return Err(ConfigError::MalformedFile);
    }
    let session = match json_pointer(&value, "/session") {
        None => {
            return Ok(Config { session: None });
        }
        Some(s) => s,
    };
    if json_is_null(session) {
        return Ok(Config { session: None });
    }
    match session_from_fields(
        read_field(&value, "/session/user_id"),
        read_field(&value, "/session/device_id"),
        read_field(&value, "/session/access_token"),
        read_field(&value, "/session/refresh_token"),
        read_field(&value, "/session/sync_cursor"),
    ) {
        Ok(rec) => Ok(Config { session: Some(rec) }),
        Err(e) => Err(e),
    }
}

} // verus!
