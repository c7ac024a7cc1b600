//! Events that drive a session and the inbound message they carry.

use vstd::prelude::*;
use vstd::string::StringExecFns;
use crate::text::u64_to_string;
use crate::text::decimal;

verus! {

/// Identifier of a session.
pub type SessionId = u64;

/// One inbound request, reduced to what the session logic reads.
pub struct Message {
    /// Request id; every response is keyed by it.
    pub id: u64,
    /// Session this request belongs to.
    pub session_id: SessionId,
    /// Which candidate provider the session serves.
    pub provider_id: String,
    /// Working directory of the editor.
    pub cwd: String,
    /// Path of the data being searched.
    pub source_fpath: String,
    /// Width of the display window, in columns.
    pub display_winwidth: usize,
    /// The text typed so far.
    pub query: String,
    /// One-based cursor line.
    pub lnum: usize,
}

impl Message {
    /// A copy of this message, field for field.
    pub fn duplicate(&self) -> (copy: Message)
        ensures
            copy == *self,
    {
        Message {
            id: self.id,
            session_id: self.session_id,
            provider_id: self.provider_id.clone(),
            cwd: self.cwd.clone(),
            source_fpath: self.source_fpath.clone(),
            display_winwidth: self.display_winwidth,
            query: self.query.clone(),
            lnum: self.lnum,
        }
    }
}

/// What the transport can ask of a session.
pub enum SessionEvent {
    /// The query changed.
    OnTyped(Message),
    /// The cursor moved to another candidate.
    OnMove(Message),
    /// The session has just been opened.
    Create,
    /// The session is to end.
    Terminate,
}

impl SessionEvent {
    /// The text that [`SessionEvent::short_display`] produces.
    pub open spec fn short_display_spec(&self) -> Seq<char> {
        match self {
            SessionEvent::OnTyped(msg) => "OnTyped, msg id: "@ + decimal(msg.id as nat),
            SessionEvent::OnMove(msg) => "OnMove, msg id: "@ + decimal(msg.id as nat),
            SessionEvent::Create => "Create"@,
            SessionEvent::Terminate => "Terminate"@,
        }
    }

    /// A one-line description for logs: the kind of event and, where it
    /// carries a message, the request id.
    pub fn short_display(&self) -> (text: String)
        ensures
            text@ == self.short_display_spec(),
    {
        match self {
            SessionEvent::OnTyped(msg) => {
                let mut text = String::from_str("OnTyped, msg id: ");
                text.append(u64_to_string(msg.id).as_str());
                text
            },
            SessionEvent::OnMove(msg) => {
                let mut text = String::from_str("OnMove, msg id: ");
                text.append(u64_to_string(msg.id).as_str());
                text
            },
            SessionEvent::Create => String::from_str("Create"),
            SessionEvent::Terminate => String::from_str("Terminate"),
        }
    }
}

/// What the forerunner found: the candidate total and, where it kept them,
/// the candidates themselves.
pub struct InitialJobResult {
    pub total: usize,
    pub lines: Option<Vec<String>>,
}

} // verus!
