use vstd::prelude::*;

use crate::error::Error;

verus! {

/// Whether tonic accepts `s` as an ASCII metadata value: every character is a tab or at
/// least a space, and none is DEL (characters beyond ASCII pass this byte-level rule).
pub open spec fn header_value_text(s: Seq<char>) -> bool {
    forall|i: int|
        0 <= i < s.len() ==> #[trigger] s[i] == '\t' || (s[i] as u32 >= 32 && s[i] as u32 != 127)
}

/// Whether `s` can travel as a metadata value: ASCII only, and accepted by tonic.
pub open spec fn metadata_text(s: Seq<char>) -> bool {
    vstd::utf8::is_ascii_chars(s) && header_value_text(s)
}

/// Relies on tonic's `MetadataValue::<Ascii>::try_from(&str)`, which defers to http's
/// `HeaderValue::from_str`: every byte must be a tab, or at least 32 and not 127. Bytes of
/// non-ASCII characters are all at least 128, so the rule reads the same on characters.
#[verifier::external_body]
fn header_value_accepts(s: &str) -> (r: bool)
    ensures
        r == header_value_text(s@),
{
    tonic::metadata::MetadataValue::<tonic::metadata::Ascii>::try_from(s).is_ok()
}

/// Whether `s` can travel as a metadata value (see [`metadata_text`]).
pub fn is_metadata_text(s: &str) -> (r: bool)
    ensures
        r == metadata_text(s@),
{
    s.is_ascii() && header_value_accepts(s)
}

/// Seconds between two liveness pings.
pub const LIVENESS_INTERVAL_SECS: u64 = 30;

/// The identity a server granted to a connection.
#[derive(Debug, Clone, PartialEq, Eq)]
pub struct Session {
    pub session_id: String,
    pub server_uuid: String,
    /// Set once a database is selected, replaced when another one is.
    pub token: Option<String>,
}

/// The metadata entries that a session adds to an outgoing call.
pub open spec fn session_entries(s: Session) -> Seq<(Seq<char>, Seq<char>)> {
    let fixed = seq![("sessionid"@, s.session_id@), ("immudb-uuid"@, s.server_uuid@)];
    match s.token {
        Some(t) => fixed.push(("authorization"@, t@)),
        None => fixed,
    }
}

/// The view of metadata entries as pairs of character sequences.
pub open spec fn entries_view(v: Seq<(String, String)>) -> Seq<(Seq<char>, Seq<char>)> {
    v.map_values(|e: (String, String)| (e.0@, e.1@))
}

impl Session {
    /// Every value the session sends is valid metadata.
    pub open spec fn wf(&self) -> bool {
        &&& metadata_text(self.session_id@)
        &&& metadata_text(self.server_uuid@)
        &&& (self.token matches Some(t) ==> metadata_text(t@))
    }

    /// The session opened with the ids that the server returned; no database is selected yet.
    pub fn new(session_id: &str, server_uuid: &str) -> (r: Session)
        requires
            metadata_text(session_id@),
            metadata_text(server_uuid@),
        ensures
            r.session_id@ == session_id@,
            r.server_uuid@ == server_uuid@,
            r.token is None,
            r.wf(),
    {
        Session {
            session_id: String::from_str(session_id),
            server_uuid: String::from_str(server_uuid),
            token: None,
        }
    }

    /// Stores the bearer token of a newly selected database, when it is valid metadata.
    pub fn set_token(&mut self, token: String) -> (r: Result<(), Error>)
        ensures
            metadata_text(token@) ==> r is Ok && *final(self) == (Session {
                token: Some(token),
                ..*old(self)
            }),
            !metadata_text(token@) ==> (r matches Err(Error::InvalidInput(_))) && *final(self)
                == *old(self),
            old(self).wf() ==> final(self).wf(),
    {
        if is_metadata_text(token.as_str()) {
            self.token = Some(token);
            Ok(())
        } else {
            Err(Error::InvalidInput(String::from_str("token is not ASCII metadata")))
        }
    }

    /// The metadata entries to add to an outgoing call: session id, server id, and the
    /// bearer token once there is one.
    pub fn outbound_metadata(&self) -> (r: Vec<(String, String)>)
        ensures
            entries_view(r@) == session_entries(*self),
    {
        let mut r: Vec<(String, String)> = Vec::new();
        r.push((String::from_str("sessionid"), self.session_id.clone()));
        r.push((String::from_str("immudb-uuid"), self.server_uuid.clone()));
        match &self.token {
            Some(t) => r.push((String::from_str("authorization"), t.clone())),
            None => {},
        }
        assert(entries_view(r@) =~= session_entries(*self));
        r
    }
}

/// What happens to the liveness task.
#[derive(Debug, Clone, Copy, PartialEq, Eq)]
pub enum LivenessEvent {
    /// The interval elapsed.
    Tick,
    /// A ping returned; `true` when it succeeded.
    PingDone(bool),
    /// The connection is being dropped.
    Cancelled,
}

/// What the liveness task does next.
#[derive(Debug, Clone, Copy, PartialEq, Eq)]
pub enum LivenessAction {
    SendPing,
    Wait,
    Stop,
}

/// The liveness task pings on every tick, ignores how a ping went, and stops when cancelled.
pub fn liveness_step(e: LivenessEvent) -> (r: LivenessAction)
    ensures
        e == LivenessEvent::Tick ==> r == LivenessAction::SendPing,
        e is PingDone ==> r == LivenessAction::Wait,
        e == LivenessEvent::Cancelled ==> r == LivenessAction::Stop,
{
    match e {
        LivenessEvent::Tick => LivenessAction::SendPing,
        LivenessEvent::PingDone(_) => LivenessAction::Wait,
        LivenessEvent::Cancelled => LivenessAction::Stop,
    }
}

} // verus!
