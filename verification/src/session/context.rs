//! The description of a session that its background tasks share.

use vstd::prelude::*;
use crate::session::event::Message;
use crate::session::event::SessionId;

verus! {

/// Configuration captured when a session is opened, together with the two
/// pieces of state that settle once: the liveness flag and the cached
/// candidate list.
pub struct SessionContext {
    session_id: SessionId,
    provider_id: String,
    cwd: String,
    target_path: String,
    display_width: usize,
    is_running: bool,
    cached_candidates: Option<Vec<String>>,
}

impl SessionContext {
    pub closed spec fn id(&self) -> SessionId {
        self.session_id
    }

    pub closed spec fn provider(&self) -> String {
        self.provider_id
    }

    pub closed spec fn working_dir(&self) -> String {
        self.cwd
    }

    pub closed spec fn target(&self) -> String {
        self.target_path
    }

    pub closed spec fn width(&self) -> usize {
        self.display_width
    }

    /// Whether the session has not been terminated.
    pub closed spec fn alive(&self) -> bool {
        self.is_running
    }

    /// The candidate list stored so far, if any.
    pub closed spec fn cached(&self) -> Option<Vec<String>> {
        self.cached_candidates
    }

    /// Whether `self` and `other` agree on everything fixed at creation.
    pub open spec fn same_config(&self, other: &SessionContext) -> bool {
        &&& self.id() == other.id()
        &&& self.provider() == other.provider()
        &&& self.working_dir() == other.working_dir()
        &&& self.target() == other.target()
        &&& self.width() == other.width()
    }

    /// The context of a session opened by `msg`: running, nothing cached.
    pub fn new(msg: &Message) -> (ctx: SessionContext)
        ensures
            ctx.id() == msg.session_id,
            ctx.provider() == msg.provider_id,
            ctx.working_dir() == msg.cwd,
            ctx.target() == msg.source_fpath,
            ctx.width() == msg.display_winwidth,
            ctx.alive(),
            ctx.cached() is None,
    {
        SessionContext {
            session_id: msg.session_id,
            provider_id: msg.provider_id.clone(),
            cwd: msg.cwd.clone(),
            target_path: msg.source_fpath.clone(),
            display_width: msg.display_winwidth,
            is_running: true,
            cached_candidates: None,
        }
    }

    pub fn session_id(&self) -> (id: SessionId)
        ensures
            id == self.id(),
    {
        self.session_id
    }

    pub fn provider_id(&self) -> (provider: &String)
        ensures
            *provider == self.provider(),
    {
        &self.provider_id
    }

    pub fn cwd(&self) -> (cwd: &String)
        ensures
            *cwd == self.working_dir(),
    {
        &self.cwd
    }

    pub fn target_path(&self) -> (path: &String)
        ensures
            *path == self.target(),
    {
        &self.target_path
    }

    pub fn display_width(&self) -> (width: usize)
        ensures
            width == self.width(),
    {
        self.display_width
    }

    /// Whether the session is still running.
    pub fn is_alive(&self) -> (alive: bool)
        ensures
            alive == self.alive(),
    {
        self.is_running
    }

    /// Marks the session as terminated. A second call changes nothing.
    pub fn mark_terminated(&mut self)
        ensures
            !final(self).alive(),
            final(self).same_config(old(self)),
            final(self).cached() == old(self).cached(),
        no_unwind
    {
        self.is_running = false;
    }

    /// The cached candidate list, if the forerunner has stored one.
    pub fn cached_candidates(&self) -> (cached: &Option<Vec<String>>)
        ensures
            *cached == self.cached(),
    {
        &self.cached_candidates
    }

    /// Stores the candidate list unless one is stored already: the first
    /// list wins and later ones are discarded. Returns whether `lines` was
    /// stored.
    pub fn set_once(&mut self, lines: Vec<String>) -> (stored: bool)
        ensures
            stored == (old(self).cached() is None),
            final(self).cached() == if stored {
                Some(lines)
            } else {
                old(self).cached()
            },
            final(self).alive() == old(self).alive(),
            final(self).same_config(old(self)),
        no_unwind
    {
        match self.cached_candidates {
            None => {
                self.cached_candidates = Some(lines);
                true
            },
            Some(_) => false,
        }
    }
}

} // verus!
