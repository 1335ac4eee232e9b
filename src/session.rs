use vstd::prelude::*;
use vstd::string::*;
use crate::codec::now_secs;
use crate::gate::{authenticate_at, gate_reason, gate_verdict, header_view, GateError};
use crate::registry::{after_disconnect, Connection, ConnectionRegistry};

verus! {

/// Why a WebSocket upgrade was refused.
#[derive(Debug, Clone, Copy, PartialEq, Eq, Structural)]
pub enum UpgradeError {
    /// The credential offered with the upgrade was refused by authentication.
    Unauthorized(GateError),
}

impl UpgradeError {
    /// A short reason to send back with the refusal.
    pub fn reason(&self) -> (r: &'static str)
        ensures
            r@ == match *self {
                UpgradeError::Unauthorized(e) => gate_reason(e),
            },
    {
        match self {
            UpgradeError::Unauthorized(e) => e.reason(),
        }
    }
}

/// Where a connection stands in its life.
#[derive(Debug, Clone, Copy, PartialEq, Eq, Structural)]
pub enum SessionState {
    /// Authenticated, not yet installed in the registry.
    Authenticated,
    /// Installed in the registry under the given connection id.
    Active(u64),
    /// Ended; its entry, if still its own, has been removed.
    Closed,
}

/// What an upgrade with this credential header decides at time `now`: the
/// subject and role of the new connection, or why it is refused.
pub open spec fn upgrade_verdict(header: Option<Seq<char>>, secret: Seq<u8>, now: u64) -> Result<(Seq<char>, Seq<char>), UpgradeError> {
    match gate_verdict(header, secret, now) {
        Err(e) => Err(UpgradeError::Unauthorized(e)),
        Ok(c) => Ok((c.0, c.2)),
    }
}

/// One WebSocket connection of an authenticated subject.
pub struct WebSocketSession {
    pub user_id: String,
    pub role: String,
    pub state: SessionState,
}

pub open spec fn session_result(r: Result<WebSocketSession, UpgradeError>) -> Result<(Seq<char>, Seq<char>), UpgradeError> {
    match r {
        Ok(s) => Ok((s.user_id@, s.role@)),
        Err(e) => Err(e),
    }
}

/// Authenticates the credential that came with an upgrade request, at time
/// `now`; on success the session for the verified subject, not yet installed.
pub fn ws_connect_at(header: Option<&str>, secret: &[u8], now: u64) -> (r: Result<WebSocketSession, UpgradeError>)
    ensures
        session_result(r) == upgrade_verdict(header_view(header), secret@, now),
        r matches Ok(s) ==> s.state == SessionState::Authenticated,
{
    let claims = match authenticate_at(header, secret, now) {
        Ok(c) => c,
        Err(e) => return Err(UpgradeError::Unauthorized(e)),
    };
    Ok(WebSocketSession { user_id: claims.id, role: claims.role, state: SessionState::Authenticated })
}

/// Authenticates the credential of an upgrade request at the present time.
pub fn ws_connect(header: Option<&str>, secret: &[u8]) -> (r: Result<WebSocketSession, UpgradeError>)
    ensures
        exists|now: u64| now <= i64::MAX && session_result(r) == upgrade_verdict(header_view(header), secret@, now),
        r matches Ok(s) ==> s.state == SessionState::Authenticated,
{
    let now = now_secs();
    let r = ws_connect_at(header, secret, now);
    assert(session_result(r) == upgrade_verdict(header_view(header), secret@, now));
    r
}

impl WebSocketSession {
    /// Enters `Active`: installs `channel` as the subject's connection,
    /// replacing any earlier one.
    pub fn started<C>(&mut self, registry: &mut ConnectionRegistry<C>, channel: C)
        requires
            old(self).state == SessionState::Authenticated,
            old(registry).wf(),
            old(registry).next_id() < u64::MAX,
        ensures
            final(registry).wf(),
            final(self).user_id@ == old(self).user_id@,
            final(self).role@ == old(self).role@,
            final(self).state == SessionState::Active(old(registry).next_id()),
            final(registry).next_id() == old(registry).next_id() + 1,
            final(registry).issued() == old(registry).issued().insert(old(registry).next_id(), old(self).user_id@),
            final(registry)@ == old(registry)@.insert(old(self).user_id@, final(registry)@[old(self).user_id@]),
            final(registry)@[old(self).user_id@].subject@ == old(self).user_id@,
            final(registry)@[old(self).user_id@].id == old(registry).next_id(),
            final(registry)@[old(self).user_id@].role@ == old(self).role@,
            final(registry)@[old(self).user_id@].channel == channel,
    {
        let id = registry.connect(self.user_id.clone(), self.role.clone(), channel);
        self.state = SessionState::Active(id);
    }

    /// Enters `Closed`, whatever ended the connection: removes the subject's
    /// entry where it is still this session's own. Afterwards no entry holds
    /// this session's connection.
    pub fn stopped<C>(&mut self, registry: &mut ConnectionRegistry<C>)
        requires
            old(registry).wf(),
            old(self).state matches SessionState::Active(id) ==> old(registry).issued().contains_key(id)
                && old(registry).issued()[id] == old(self).user_id@,
        ensures
            final(registry).wf(),
            final(self).user_id@ == old(self).user_id@,
            final(self).state == SessionState::Closed,
            final(registry).next_id() == old(registry).next_id(),
            final(registry).issued() == old(registry).issued(),
            match old(self).state {
                SessionState::Active(id) => final(registry)@ == after_disconnect(old(registry)@, old(self).user_id@, id)
                    && forall|k: Seq<char>| #[trigger] final(registry)@.contains_key(k) ==> final(registry)@[k].id != id,
                _ => final(registry)@ == old(registry)@,
            },
    {
        match self.state {
            SessionState::Active(id) => {
                proof {
                    registry.lemma_ids_belong_to_subjects(id, self.user_id@);
                }
                registry.disconnect(self.user_id.as_str(), id);
            },
            _ => {},
        }
        self.state = SessionState::Closed;
    }

    /// The reply to a text frame from the client: the text, echoed.
    pub fn handle(&self, text: &str) -> (r: String)
        ensures
            r@ == echo_prefix() + text@,
    {
        let prefix = "Echo: ";
        proof {
            reveal_strlit("Echo: ");
        }
        assert(prefix@ =~= echo_prefix());
        prefix.to_owned().concat(text)
    }
}

/// What an echoed frame starts with.
pub open spec fn echo_prefix() -> Seq<char> {
    seq!['E', 'c', 'h', 'o', ':', ' ']
}

} // verus!
