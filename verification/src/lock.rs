//! Session locks: at most one running agent per session, and a way to ask
//! a running session to stop.
use vstd::prelude::*;
use crate::text::{concat_str, owned};
use crate::keyed::{entries_map, entry_keys, keys_unique, get_entry, set_entry, remove_entry, entry_position};
use crate::store::now_millis;

verus! {

/// The lock held on a running session. `aborted` is raised when the
/// session is asked to stop.
#[derive(Debug, Clone, PartialEq)]
pub struct SessionLock {
    pub session_id: String,
    pub locked_at: u64,
    pub aborted: bool,
}

impl SessionLock {
    /// A lock on `session_id`, taken now. When the clock cannot be read the
    /// lock time is 0.
    pub fn new(session_id: String) -> (r: SessionLock)
        ensures
            r.session_id == session_id,
            !r.aborted,
    {
        let locked_at = match now_millis() {
            Ok(t) => t,
            Err(_) => 0,
        };
        SessionLock { session_id, locked_at, aborted: false }
    }

    /// Whether the session still runs (it has not been asked to stop).
    pub fn is_locked(&self) -> (r: bool)
        ensures
            r == !self.aborted,
    {
        !self.aborted
    }

    /// Ask the session to stop.
    pub fn abort(&mut self)
        ensures
            final(self).aborted,
            final(self).session_id == old(self).session_id,
            final(self).locked_at == old(self).locked_at,
    {
        self.aborted = true;
    }

    /// Whether the session has been asked to stop.
    pub fn should_abort(&self) -> (r: bool)
        ensures
            r == self.aborted,
    {
        self.aborted
    }

    /// A copy of the lock as it is now.
    pub fn copy(&self) -> (r: SessionLock)
        ensures
            r.session_id@ == self.session_id@,
            r.locked_at == self.locked_at,
            r.aborted == self.aborted,
    {
        SessionLock { session_id: owned(self.session_id.as_str()), locked_at: self.locked_at, aborted: self.aborted }
    }
}

/// The error for acquiring a session that is locked.
pub open spec fn already_locked(id: Seq<char>) -> Seq<char> {
    "Session "@ + id + " is already locked"@
}

/// The error for aborting a session that is not locked.
pub open spec fn not_locked(id: Seq<char>) -> Seq<char> {
    "Session "@ + id + " is not locked (not running)"@
}

/// The locks of all running sessions, by session id.
pub struct SessionLockManager {
    locks: Vec<(String, SessionLock)>,
}

impl View for SessionLockManager {
    type V = Map<Seq<char>, SessionLock>;

    closed spec fn view(&self) -> Map<Seq<char>, SessionLock> {
        entries_map(self.locks@)
    }
}

impl SessionLockManager {
    #[verifier::type_invariant]
    closed spec fn inv(&self) -> bool {
        keys_unique(entry_keys(self.locks@))
    }

    /// A manager with no locks.
    pub fn new() -> (r: SessionLockManager)
        ensures
            r@ == Map::<Seq<char>, SessionLock>::empty(),
    {
        let r = SessionLockManager { locks: Vec::new() };
        assert(r@ =~= Map::<Seq<char>, SessionLock>::empty());
        r
    }

    /// Lock a session. Fails when the session is locked already; otherwise
    /// gives back a copy of the new lock as it was stored (same session,
    /// time and flag). The copy is a snapshot: an abort made later through
    /// the manager is read with [`SessionLockManager::get`].
    pub fn acquire(&mut self, session_id: &str) -> (r: Result<SessionLock, String>)
        ensures
            old(self)@.dom().contains(session_id@) ==> {
                &&& r is Err
                &&& r->Err_0@ == already_locked(session_id@)
                &&& final(self)@ == old(self)@
            },
            !old(self)@.dom().contains(session_id@) ==> {
                &&& r is Ok
                &&& r->Ok_0.session_id@ == session_id@
                &&& !r->Ok_0.aborted
                &&& final(self)@.dom() == old(self)@.dom().insert(session_id@)
                &&& final(self)@[session_id@].session_id@ == session_id@
                &&& !final(self)@[session_id@].aborted
                &&& r->Ok_0.locked_at == final(self)@[session_id@].locked_at
                &&& forall|k: Seq<char>| k != session_id@ ==> #[trigger] final(self)@.get(k) == old(self)@.get(k)
            },
    {
        proof {
            use_type_invariant(&*self);
        }
        if entry_position(&self.locks, session_id).is_some() {
            let msg = concat_str("Session ", session_id);
            return Err(concat_str(msg.as_str(), " is already locked"));
        }
        let lock = SessionLock::new(owned(session_id));
        let result = lock.copy();
        let mut locks: Vec<(String, SessionLock)> = Vec::new();
        std::mem::swap(&mut locks, &mut self.locks);
        set_entry(&mut locks, owned(session_id), lock);
        self.locks = locks;
        Ok(result)
    }

    /// Unlock a session.
    pub fn release(&mut self, session_id: &str)
        ensures
            final(self)@ == old(self)@.remove(session_id@),
    {
        proof {
            use_type_invariant(&*self);
        }
        let mut locks: Vec<(String, SessionLock)> = Vec::new();
        std::mem::swap(&mut locks, &mut self.locks);
        let _ = remove_entry(&mut locks, session_id);
        self.locks = locks;
    }

    /// The lock of a session, if it is locked.
    pub fn get(&self, session_id: &str) -> (r: Option<&SessionLock>)
        ensures
            match r {
                Some(l) => self@.dom().contains(session_id@) && *l == self@[session_id@],
                None => !self@.dom().contains(session_id@),
            },
    {
        get_entry(&self.locks, session_id)
    }

    /// Ask a locked session to stop.
    pub fn abort(&mut self, session_id: &str) -> (r: Result<(), String>)
        ensures
            old(self)@.dom().contains(session_id@) ==> {
                &&& r is Ok
                &&& final(self)@.dom() == old(self)@.dom()
                &&& final(self)@[session_id@].aborted
                &&& final(self)@[session_id@].session_id == old(self)@[session_id@].session_id
                &&& final(self)@[session_id@].locked_at == old(self)@[session_id@].locked_at
                &&& forall|k: Seq<char>| k != session_id@ ==> #[trigger] final(self)@.get(k) == old(self)@.get(k)
            },
            !old(self)@.dom().contains(session_id@) ==> {
                &&& r is Err
                &&& r->Err_0@ == not_locked(session_id@)
                &&& final(self)@ == old(self)@
            },
    {
        proof {
            use_type_invariant(&*self);
        }
        let mut lock = match get_entry(&self.locks, session_id) {
            Some(l) => SessionLock { session_id: l.session_id.clone(), locked_at: l.locked_at, aborted: l.aborted },
            None => {
                let msg = concat_str("Session ", session_id);
                return Err(concat_str(msg.as_str(), " is not locked (not running)"));
            },
        };
        lock.abort();
        let ghost before = self@;
        let mut locks: Vec<(String, SessionLock)> = Vec::new();
        std::mem::swap(&mut locks, &mut self.locks);
        set_entry(&mut locks, owned(session_id), lock);
        self.locks = locks;
        assert(self@.dom() =~= before.dom());
        Ok(())
    }

    /// Whether a session is locked.
    pub fn is_locked(&self, session_id: &str) -> (r: bool)
        ensures
            r == self@.dom().contains(session_id@),
    {
        get_entry(&self.locks, session_id).is_some()
    }
}

/// Releasing a lock frees the session (it can be acquired again) and
/// leaves the other locks as they were.
pub proof fn law_release_frees(m: Map<Seq<char>, SessionLock>, id: Seq<char>, other: Seq<char>)
    ensures
        !m.remove(id).dom().contains(id),
        other != id ==> m.remove(id).dom().contains(other) == m.dom().contains(other),
{
}

} // verus!
