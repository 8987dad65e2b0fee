//! The session store: the sessions by id, and the messages of each session.
use vstd::prelude::*;
use crate::text::{concat_str, decimal, decimal_of, owned, str_eq, string_from_chars};
use crate::types::{Message, Part, Session, SessionTime, SessionView, message_id, os};
use crate::keyed::{key_index, lemma_key_index, lemma_last_match};
use crate::session::{
    svs, sess_index, sess_get, sess_put, sess_remove, ids_unique, newest_first, sort_newest_first,
    lemma_sess_index, lemma_sess_index_unique, lemma_put_unique, lemma_remove_unique,
};

verus! {

/// A message together with its parts.
#[derive(Debug, Clone, PartialEq)]
pub struct MessageWithParts {
    pub info: Message,
    pub parts: Vec<Part>,
}

/// The session ids under which message lists are kept.
pub open spec fn mkeys(m: Seq<(String, Vec<MessageWithParts>)>) -> Seq<Seq<char>> {
    m.map_values(|e: (String, Vec<MessageWithParts>)| e.0@)
}

/// The message lists as a map from session id to messages.
pub open spec fn message_map(m: Seq<(String, Vec<MessageWithParts>)>) -> Map<Seq<char>, Seq<MessageWithParts>> {
    Map::new(
        |k: Seq<char>| key_index(mkeys(m), k) >= 0,
        |k: Seq<char>| m[key_index(mkeys(m), k)].1@,
    )
}

/// The messages kept for a session id (none if no list is kept).
pub open spec fn messages_of(m: Map<Seq<char>, Seq<MessageWithParts>>, id: Seq<char>) -> Seq<MessageWithParts> {
    if m.dom().contains(id) {
        m[id]
    } else {
        Seq::empty()
    }
}

/// The content of a store: its sessions, in the order they were first
/// stored, and the message lists by session id.
pub struct StoreView {
    pub sessions: Seq<SessionView>,
    pub messages: Map<Seq<char>, Seq<MessageWithParts>>,
}

/// The error for an unknown session.
pub open spec fn session_not_found(id: Seq<char>) -> Seq<char> {
    "Session not found: "@ + id
}

/// The error for an unknown message.
pub open spec fn message_not_found(id: Seq<char>) -> Seq<char> {
    "Message not found: "@ + id
}

/// A newly created session.
pub open spec fn new_session(
    id: Seq<char>,
    project_id: Seq<char>,
    directory: Seq<char>,
    parent_id: Option<Seq<char>>,
    title: Seq<char>,
    now: u64,
) -> SessionView {
    SessionView {
        id,
        project_id,
        directory,
        parent_id,
        summary: None,
        share: None,
        title,
        version: "1.0.0"@,
        time: SessionTime { created: now, updated: now, compacting: None },
        revert: None,
        metadata: None,
    }
}

/// A session with its title replaced (when one is given) and its update
/// time set to `now`.
pub open spec fn touched(s: SessionView, title: Option<Seq<char>>, now: u64) -> SessionView {
    SessionView {
        title: match title {
            Some(t) => t,
            None => s.title,
        },
        time: SessionTime { created: s.time.created, updated: now, compacting: s.time.compacting },
        ..s
    }
}

/// A session with new metadata and its update time set to `now`.
pub open spec fn with_metadata(s: SessionView, metadata: Seq<char>, now: u64) -> SessionView {
    SessionView {
        metadata: Some(metadata),
        time: SessionTime { created: s.time.created, updated: now, compacting: s.time.compacting },
        ..s
    }
}

/// Whether a session is listed for a directory filter.
pub open spec fn in_directory(directory: Option<Seq<char>>) -> spec_fn(SessionView) -> bool {
    |s: SessionView| match directory {
        Some(d) => s.directory == d,
        None => true,
    }
}

/// Whether a session is a child of `parent`.
pub open spec fn child_of(parent: Seq<char>) -> spec_fn(SessionView) -> bool {
    |s: SessionView| s.parent_id == Some(parent)
}

/// The index of the first message with id `id`, or `-1`.
pub open spec fn first_message(ms: Seq<MessageWithParts>, id: Seq<char>) -> int {
    if exists|j: int| 0 <= j < ms.len() && message_id(ms[j].info)@ == id
        && (forall|i: int| 0 <= i < j ==> message_id(ms[i].info)@ != id) {
        choose|j: int| 0 <= j < ms.len() && message_id(ms[j].info)@ == id
            && (forall|i: int| 0 <= i < j ==> message_id(ms[i].info)@ != id)
    } else {
        -1
    }
}

/// Sessions by id, and for each session id the messages added to it.
/// Deleting a session keeps its messages.
pub struct SessionStore {
    sessions: Vec<Session>,
    messages: Vec<(String, Vec<MessageWithParts>)>,
}

impl View for SessionStore {
    type V = StoreView;

    closed spec fn view(&self) -> StoreView {
        StoreView { sessions: svs(self.sessions@), messages: message_map(self.messages@) }
    }
}

/// A reading of the system clock: `std::time::SystemTime::now()` measured
/// from `UNIX_EPOCH` with `duration_since`, as milliseconds after the epoch
/// (`Ok`) or, when the clock is set before it, by how much (`Err`). Which
/// reading comes back is the time of the call, so nothing is stated of it.
#[verifier::external_body]
fn clock_reading() -> Result<u128, u128> {
    match std::time::SystemTime::now().duration_since(std::time::UNIX_EPOCH) {
        Ok(d) => Ok(d.as_millis()),
        Err(e) => Err(e.duration().as_millis()),
    }
}

/// The text of a UUID in hyphenated form: 36 characters, hyphens at
/// positions 8, 13, 18 and 23, lowercase hexadecimal digits elsewhere.
pub open spec fn is_uuid_text(u: Seq<char>) -> bool {
    &&& u.len() == 36
    &&& forall|i: int|
        0 <= i < 36 ==> if i == 8 || i == 13 || i == 18 || i == 23 {
            #[trigger] u[i] == '-'
        } else {
            ('0' <= u[i] <= '9') || ('a' <= u[i] <= 'f')
        }
}

/// A fresh random identifier: `uuid::Uuid::new_v4().to_string()`, which
/// the crate formats hyphenated in lowercase. Which identifier comes out
/// is chance; only its form is stated.
#[verifier::external_body]
pub(crate) fn random_uuid() -> (r: String)
    ensures
        is_uuid_text(r@),
{
    uuid::Uuid::new_v4().to_string()
}

/// What chrono writes for the instant `ms` milliseconds after the Unix
/// epoch, formatted `%Y-%m-%dT%H:%M:%S%.3fZ` (RFC 3339 in UTC with
/// milliseconds). It depends on `ms` alone.
pub uninterp spec fn utc_text(ms: u64) -> Seq<char>;

/// `chrono::DateTime::from_timestamp_millis` on `ms`, formatted
/// `%Y-%m-%dT%H:%M:%S%.3fZ`. chrono gives `None`, without panicking, for an
/// instant outside its range (and `ms` above `i64::MAX` is out of it); when
/// a text comes back it is [`utc_text`] of `ms`. When `None` comes back is
/// not stated: chrono documents only "out of range".
#[verifier::external_body]
fn utc_stamp_of(ms: u64) -> (r: Option<String>)
    ensures
        r matches Some(t) ==> t@ == utc_text(ms),
{
    let millis = i64::try_from(ms).ok()?;
    chrono::DateTime::from_timestamp_millis(millis).map(|d| d.format("%Y-%m-%dT%H:%M:%S%.3fZ").to_string())
}

/// The stamp in a default title for a session created at `ms`: the UTC
/// time when chrono can write it, else the milliseconds in decimal.
pub open spec fn is_title_stamp(stamp: Seq<char>, ms: u64) -> bool {
    stamp == utc_text(ms) || stamp == decimal(ms as nat)
}

/// The stamp for a session created at `ms` (see [`is_title_stamp`]).
pub fn title_stamp(ms: u64) -> (r: String)
    ensures
        is_title_stamp(r@, ms),
{
    match utc_stamp_of(ms) {
        Some(t) => t,
        None => string_from_chars(&decimal_of(ms as u128)),
    }
}

/// The error for a clock set before the Unix epoch (the text of std's
/// `SystemTimeError`, after "Time error: ").
pub open spec fn clock_error() -> Seq<char> {
    "Time error: second time provided was later than self"@
}

/// What a clock reading gives: the milliseconds after the epoch, cut to
/// 64 bits, or the clock error.
pub open spec fn clock_result(reading: Result<u128, u128>) -> Result<u64, Seq<char>> {
    match reading {
        Ok(t) => Ok(t as u64),
        Err(_) => Err(clock_error()),
    }
}

/// A result with its error text as a sequence.
pub open spec fn time_view(r: Result<u64, String>) -> Result<u64, Seq<char>> {
    match r {
        Ok(t) => Ok(t),
        Err(e) => Err(e@),
    }
}

/// The time in milliseconds for a clock reading (see [`clock_result`]).
pub fn millis_from_clock(reading: Result<u128, u128>) -> (r: Result<u64, String>)
    ensures
        time_view(r) == clock_result(reading),
{
    match reading {
        Ok(t) => Ok(t as u64),
        Err(_) => {
            proof {
                reveal_strlit("Time error: second time provided was later than self");
            }
            Err(owned("Time error: second time provided was later than self"))
        },
    }
}

/// The current time in milliseconds since the Unix epoch, or the clock
/// error when the system clock is set before the epoch: what
/// [`millis_from_clock`] gives for a reading of the clock.
pub fn now_millis() -> (r: Result<u64, String>)
    ensures
        exists|reading: Result<u128, u128>| time_view(r) == clock_result(reading),
{
    let reading = clock_reading();
    let r = millis_from_clock(reading);
    assert(time_view(r) == clock_result(reading));
    r
}

/// The title given to a session created without one; `stamp` is the
/// creation time in RFC 3339 form with milliseconds.
pub fn default_session_title(stamp: &str) -> (r: String)
    ensures
        r@ == "New session - "@ + stamp@,
{
    concat_str("New session - ", stamp)
}

fn copy_opt(o: &Option<String>) -> (r: Option<String>)
    ensures
        os(r) == os(*o),
{
    match o {
        Some(s) => Some(owned(s.as_str())),
        None => None,
    }
}

impl SessionStore {
    #[verifier::type_invariant]
    closed spec fn inv(&self) -> bool {
        &&& ids_unique(svs(self.sessions@))
        &&& forall|i: int| 0 <= i < self.sessions@.len()
            ==> #[trigger] key_index(mkeys(self.messages@), self.sessions@[i]@.id) >= 0
    }

    /// An empty store.
    pub fn new() -> (r: SessionStore)
        ensures
            r@.sessions == Seq::<SessionView>::empty(),
            r@.messages == Map::<Seq<char>, Seq<MessageWithParts>>::empty(),
            ids_unique(r@.sessions),
    {
        let r = SessionStore { sessions: Vec::new(), messages: Vec::new() };
        assert(r@.sessions =~= Seq::<SessionView>::empty());
        assert(r@.messages =~= Map::<Seq<char>, Seq<MessageWithParts>>::empty());
        r
    }

    /// The index of the session with id `id`.
    fn position(&self, id: &str) -> (r: Option<usize>)
        ensures
            match r {
                Some(i) => i == sess_index(self@.sessions, id@) && i < self@.sessions.len(),
                None => sess_index(self@.sessions, id@) == -1,
            },
    {
        proof {
            use_type_invariant(self);
            lemma_sess_index(self@.sessions, id@);
        }
        let mut i: usize = 0;
        while i < self.sessions.len()
            invariant
                i <= self.sessions@.len(),
                ids_unique(svs(self.sessions@)),
                forall|j: int| 0 <= j < i ==> svs(self.sessions@)[j].id != id@,
            decreases self.sessions@.len() - i,
        {
            if str_eq(self.sessions[i].id.as_str(), id) {
                proof {
                    lemma_sess_index_unique(svs(self.sessions@), id@, i as int);
                }
                return Some(i);
            }
            i = i + 1;
        }
        None
    }

    /// The index of the message list kept for `id`.
    fn list_position(&self, id: &str) -> (r: Option<usize>)
        ensures
            match r {
                Some(i) => i == key_index(mkeys(self.messages@), id@) && i < self.messages@.len(),
                None => key_index(mkeys(self.messages@), id@) == -1,
            },
    {
        proof {
            lemma_key_index(mkeys(self.messages@), id@);
        }
        let mut i: usize = self.messages.len();
        while i > 0
            invariant
                i <= self.messages@.len(),
                forall|j: int| i <= j < self.messages@.len() ==> mkeys(self.messages@)[j] != id@,
            decreases i,
        {
            if str_eq(self.messages[i - 1].0.as_str(), id) {
                proof {
                    lemma_last_match(mkeys(self.messages@), id@, i - 1);
                }
                return Some(i - 1);
            }
            i = i - 1;
        }
        None
    }

    /// The session with id `id`.
    pub fn get(&self, id: &str) -> (r: Result<Session, String>)
        ensures
            match sess_get(self@.sessions, id@) {
                Some(s) => r is Ok && r->Ok_0@ == s,
                None => r is Err && r->Err_0@ == session_not_found(id@),
            },
    {
        match self.position(id) {
            Some(i) => Ok(self.sessions[i].copy()),
            None => Err(concat_str("Session not found: ", id)),
        }
    }

    /// Store a new session under `id` (replacing any session with that id)
    /// and keep an empty message list for it unless one is kept already.
    pub fn create_at(
        &mut self,
        id: String,
        project_id: String,
        directory: String,
        parent_id: Option<String>,
        title: String,
        now: u64,
    ) -> (r: Session)
        ensures
            r@ == new_session(id@, project_id@, directory@, os(parent_id), title@, now),
            final(self)@.sessions == sess_put(old(self)@.sessions, r@),
            final(self)@.messages == if old(self)@.messages.dom().contains(id@) {
                old(self)@.messages
            } else {
                old(self)@.messages.insert(id@, Seq::empty())
            },
            ids_unique(final(self)@.sessions),
    {
        proof {
            use_type_invariant(&*self);
        }
        let session = Session {
            id,
            project_id,
            directory,
            parent_id,
            summary: None,
            share: None,
            title,
            version: owned("1.0.0"),
            time: SessionTime { created: now, updated: now, compacting: None },
            revert: None,
            metadata: None,
        };
        let result = session.copy();
        if self.list_position(session.id.as_str()).is_none() {
            let empty: Vec<MessageWithParts> = Vec::new();
            assert(empty@ =~= Seq::<MessageWithParts>::empty());
            self.set_messages(session.id.as_str(), empty);
        }
        self.put_session(session);
        result
    }

    /// Create a session in `directory` of the project `project_id`, with a
    /// fresh id (`ses-<uuid>`), the current time, and `title` or a title
    /// stamped with the creation time. Fails, changing nothing, when the
    /// clock cannot be read.
    pub fn create(
        &mut self,
        directory: String,
        project_id: String,
        parent_id: Option<String>,
        title: Option<String>,
    ) -> (r: Result<Session, String>)
        ensures
            r is Err ==> r->Err_0@ == clock_error() && final(self)@
                == old(self)@,
            r matches Ok(s) ==> {
                &&& exists|u: Seq<char>| is_uuid_text(u) && s@.id == "ses-"@ + u
                &&& match title {
                    Some(t) => s@.title == t@,
                    None => exists|stamp: Seq<char>|
                        is_title_stamp(stamp, s@.time.created) && s@.title == "New session - "@ + stamp,
                }
                &&& s@ == new_session(s@.id, project_id@, directory@, os(parent_id), s@.title, s@.time.created)
                &&& final(self)@.sessions == sess_put(old(self)@.sessions, s@)
                &&& final(self)@.messages == if old(self)@.messages.dom().contains(s@.id) {
                    old(self)@.messages
                } else {
                    old(self)@.messages.insert(s@.id, Seq::empty())
                }
            },
            ids_unique(final(self)@.sessions),
    {
        proof {
            use_type_invariant(&*self);
        }
        let now = match now_millis() {
            Ok(t) => t,
            Err(e) => return Err(e),
        };
        let u = random_uuid();
        let id = concat_str("ses-", u.as_str());
        let title = match title {
            Some(t) => t,
            None => {
                let stamp = title_stamp(now);
                default_session_title(stamp.as_str())
            },
        };
        Ok(self.create_at(id, project_id, directory, parent_id, title, now))
    }

    /// Keep `list` as the messages of `session_id`, replacing any list kept.
    fn set_messages(&mut self, session_id: &str, list: Vec<MessageWithParts>)
        ensures
            final(self)@.sessions == old(self)@.sessions,
            final(self)@.messages == old(self)@.messages.insert(session_id@, list@),
    {
        proof {
            use_type_invariant(&*self);
        }
        let ghost old_messages = self.messages@;
        let ghost ok = mkeys(old_messages);
        let lpos = self.list_position(session_id);
        let mut sessions: Vec<Session> = Vec::new();
        std::mem::swap(&mut sessions, &mut self.sessions);
        let mut messages: Vec<(String, Vec<MessageWithParts>)> = Vec::new();
        std::mem::swap(&mut messages, &mut self.messages);
        let e = (owned(session_id), list);
        let ghost ge = e;
        match lpos {
            Some(j) => {
                messages.set(j, e);
                proof {
                    assert(messages@ =~= old_messages.update(j as int, ge));
                    lemma_map_update(old_messages, j as int, ge);
                }
            },
            None => {
                proof {
                    lemma_map_push(old_messages, ge);
                }
                messages.push(e);
            },
        }
        proof {
            let nk = mkeys(messages@);
            assert forall|j: int| 0 <= j < sessions@.len() implies #[trigger] key_index(nk, sessions@[j]@.id) >= 0 by {
                let k = sessions@[j]@.id;
                assert(key_index(ok, k) >= 0);
            }
        }
        self.messages = messages;
        self.sessions = sessions;
    }

    /// Store `session` under its id, replacing any session with that id.
    /// A message list must already be kept for it.
    fn put_session(&mut self, session: Session)
        requires
            old(self)@.messages.dom().contains(session@.id),
        ensures
            final(self)@.sessions == sess_put(old(self)@.sessions, session@),
            final(self)@.messages == old(self)@.messages,
            ids_unique(final(self)@.sessions),
    {
        proof {
            use_type_invariant(&*self);
        }
        let ghost old_sessions = svs(self.sessions@);
        let ghost old_messages = self.messages@;
        let ghost sid = session@.id;
        let ghost sv = session@;
        let pos = self.position(session.id.as_str());
        let mut sessions: Vec<Session> = Vec::new();
        let mut messages: Vec<(String, Vec<MessageWithParts>)> = Vec::new();
        std::mem::swap(&mut sessions, &mut self.sessions);
        std::mem::swap(&mut messages, &mut self.messages);
        let ghost old_vec = sessions@;
        match pos {
            Some(i) => {
                sessions.set(i, session);
                assert(svs(sessions@) =~= old_sessions.update(i as int, sv));
            },
            None => {
                sessions.push(session);
                assert(svs(sessions@) =~= old_sessions.push(sv));
            },
        }
        proof {
            lemma_put_unique(old_sessions, sv);
            lemma_sess_index(old_sessions, sid);
            let nk = mkeys(messages@);
            assert(key_index(nk, sid) >= 0);
            assert forall|j: int| 0 <= j < sessions@.len() implies #[trigger] key_index(nk, sessions@[j]@.id) >= 0 by {
                if j < old_vec.len() && sessions@[j] == old_vec[j] {
                    assert(key_index(nk, old_vec[j]@.id) >= 0);
                } else {
                    assert(sessions@[j]@.id == sid);
                }
            }
        }
        self.messages = messages;
        self.sessions = sessions;
    }

    /// Take in a session read back from disk together with its messages:
    /// the session is stored under its id and `messages` become its list,
    /// each replacing what was kept before.
    pub fn restore(&mut self, session: Session, messages: Vec<MessageWithParts>)
        ensures
            final(self)@.sessions == sess_put(old(self)@.sessions, session@),
            final(self)@.messages == old(self)@.messages.insert(session@.id, messages@),
            ids_unique(final(self)@.sessions),
    {
        self.set_messages(session.id.as_str(), messages);
        self.put_session(session);
    }

    /// The sessions, filtered by directory when one is given, newest first.
    pub fn list(&self, directory: Option<String>) -> (r: Result<Vec<Session>, String>)
        ensures
            r is Ok,
            svs(r->Ok_0@) == newest_first(self@.sessions.filter(in_directory(os(directory)))),
    {
        let ghost pred = in_directory(os(directory));
        let mut picked: Vec<Session> = Vec::new();
        let mut i: usize = 0;
        proof {
            reveal(Seq::filter);
        }
        assert(svs(self.sessions@).take(0) =~= Seq::<SessionView>::empty());
        while i < self.sessions.len()
            invariant
                i <= self.sessions@.len(),
                pred == in_directory(os(directory)),
                svs(picked@) == svs(self.sessions@).take(i as int).filter(pred),
            decreases self.sessions@.len() - i,
        {
            let keep = match &directory {
                Some(d) => str_eq(self.sessions[i].directory.as_str(), d.as_str()),
                None => true,
            };
            let ghost s = svs(self.sessions@);
            assert(s.take(i as int + 1).drop_last() =~= s.take(i as int));
            assert(s.take(i as int + 1).last() == self.sessions@[i as int]@);
            assert(pred(self.sessions@[i as int]@) == keep);
            proof {
                reveal(Seq::filter);
            }
            if keep {
                let c = self.sessions[i].copy();
                let ghost b = svs(picked@);
                picked.push(c);
                assert(svs(picked@) =~= b.push(c@));
            }
            i = i + 1;
        }
        assert(svs(self.sessions@).take(self.sessions@.len() as int) =~= svs(self.sessions@));
        Ok(sort_newest_first(&picked))
    }

    /// The sessions whose parent is `parent_id`, newest first.
    pub fn get_children(&self, parent_id: &str) -> (r: Result<Vec<Session>, String>)
        ensures
            r is Ok,
            svs(r->Ok_0@) == newest_first(self@.sessions.filter(child_of(parent_id@))),
    {
        let ghost pred = child_of(parent_id@);
        let mut picked: Vec<Session> = Vec::new();
        let mut i: usize = 0;
        proof {
            reveal(Seq::filter);
        }
        assert(svs(self.sessions@).take(0) =~= Seq::<SessionView>::empty());
        while i < self.sessions.len()
            invariant
                i <= self.sessions@.len(),
                pred == child_of(parent_id@),
                svs(picked@) == svs(self.sessions@).take(i as int).filter(pred),
            decreases self.sessions@.len() - i,
        {
            let keep = match &self.sessions[i].parent_id {
                Some(p) => str_eq(p.as_str(), parent_id),
                None => false,
            };
            let ghost s = svs(self.sessions@);
            assert(s.take(i as int + 1).drop_last() =~= s.take(i as int));
            assert(s.take(i as int + 1).last() == self.sessions@[i as int]@);
            assert(pred(self.sessions@[i as int]@) == keep);
            proof {
                reveal(Seq::filter);
            }
            if keep {
                let c = self.sessions[i].copy();
                let ghost b = svs(picked@);
                picked.push(c);
                assert(svs(picked@) =~= b.push(c@));
            }
            i = i + 1;
        }
        assert(svs(self.sessions@).take(self.sessions@.len() as int) =~= svs(self.sessions@));
        Ok(sort_newest_first(&picked))
    }

    /// Replace the session at index `i` with `s`, which has the same id.
    fn replace_at(&mut self, i: usize, s: Session)
        requires
            i < old(self)@.sessions.len(),
            s@.id == old(self)@.sessions[i as int].id,
        ensures
            final(self)@.sessions == old(self)@.sessions.update(i as int, s@),
            final(self)@.messages == old(self)@.messages,
            ids_unique(final(self)@.sessions),
    {
        proof {
            use_type_invariant(&*self);
        }
        let ghost old_sessions = svs(self.sessions@);
        let ghost sv = s@;
        let mut sessions: Vec<Session> = Vec::new();
        std::mem::swap(&mut sessions, &mut self.sessions);
        sessions.set(i, s);
        assert(svs(sessions@) =~= old_sessions.update(i as int, sv));
        proof {
            lemma_sess_index_unique(old_sessions, sv.id, i as int);
            lemma_put_unique(old_sessions, sv);
            let nk = mkeys(self.messages@);
            assert forall|j: int| 0 <= j < sessions@.len() implies #[trigger] key_index(nk, sessions@[j]@.id) >= 0 by {
                if j != i {
                    assert(sessions@[j]@ == old_sessions[j]);
                } else {
                    assert(old_sessions[i as int].id == sv.id);
                }
            }
        }
        self.sessions = sessions;
        proof {
            use_type_invariant(&*self);
        }
    }

    /// Set the title (when one is given) and the update time of a session.
    pub fn update_at(&mut self, id: &str, title: Option<String>, now: u64) -> (r: Result<Session, String>)
        ensures
            match sess_get(old(self)@.sessions, id@) {
                Some(s) => {
                    &&& r is Ok
                    &&& r->Ok_0@ == touched(s, os(title), now)
                    &&& final(self)@.sessions == sess_put(old(self)@.sessions, r->Ok_0@)
                },
                None => r is Err && r->Err_0@ == session_not_found(id@) && final(self)@.sessions
                    == old(self)@.sessions,
            },
            final(self)@.messages == old(self)@.messages,
            ids_unique(final(self)@.sessions),
    {
        proof {
            use_type_invariant(&*self);
        }
        match self.position(id) {
            None => Err(concat_str("Session not found: ", id)),
            Some(i) => {
                let mut s = self.sessions[i].copy();
                match title {
                    Some(t) => {
                        s.title = t;
                    },
                    None => {},
                }
                s.time = SessionTime { created: s.time.created, updated: now, compacting: s.time.compacting };
                let result = s.copy();
                proof {
                    lemma_sess_index(self@.sessions, id@);
                }
                self.replace_at(i, s);
                Ok(result)
            },
        }
    }

    /// Set the metadata (JSON text) and the update time of a session.
    pub fn update_metadata_at(&mut self, id: &str, metadata: String, now: u64) -> (r: Result<Session, String>)
        ensures
            match sess_get(old(self)@.sessions, id@) {
                Some(s) => {
                    &&& r is Ok
                    &&& r->Ok_0@ == with_metadata(s, metadata@, now)
                    &&& final(self)@.sessions == sess_put(old(self)@.sessions, r->Ok_0@)
                },
                None => r is Err && r->Err_0@ == session_not_found(id@) && final(self)@.sessions
                    == old(self)@.sessions,
            },
            final(self)@.messages == old(self)@.messages,
            ids_unique(final(self)@.sessions),
    {
        proof {
            use_type_invariant(&*self);
        }
        match self.position(id) {
            None => Err(concat_str("Session not found: ", id)),
            Some(i) => {
                let mut s = self.sessions[i].copy();
                s.metadata = Some(metadata);
                s.time = SessionTime { created: s.time.created, updated: now, compacting: s.time.compacting };
                let result = s.copy();
                proof {
                    lemma_sess_index(self@.sessions, id@);
                }
                self.replace_at(i, s);
                Ok(result)
            },
        }
    }

    /// Set the title (when one is given) of a session and stamp it with the
    /// current time.
    pub fn update(&mut self, id: &str, title: Option<String>) -> (r: Result<Session, String>)
        ensures
            match sess_get(old(self)@.sessions, id@) {
                Some(s) => match r {
                    Ok(u) => exists|t: u64| u@ == touched(s, os(title), t)
                        && final(self)@.sessions == sess_put(old(self)@.sessions, u@),
                    Err(e) => final(self)@.sessions == old(self)@.sessions,
                },
                None => r is Err && r->Err_0@ == session_not_found(id@) && final(self)@.sessions
                    == old(self)@.sessions,
            },
            final(self)@.messages == old(self)@.messages,
            ids_unique(final(self)@.sessions),
    {
        proof {
            use_type_invariant(&*self);
        }
        if self.position(id).is_none() {
            return Err(concat_str("Session not found: ", id));
        }
        let now = match now_millis() {
            Ok(t) => t,
            Err(e) => return Err(e),
        };
        self.update_at(id, title, now)
    }

    /// Set the metadata (JSON text) of a session and stamp it with the
    /// current time.
    pub fn update_metadata(&mut self, id: &str, metadata: String) -> (r: Result<Session, String>)
        ensures
            match sess_get(old(self)@.sessions, id@) {
                Some(s) => match r {
                    Ok(u) => exists|t: u64| u@ == with_metadata(s, metadata@, t)
                        && final(self)@.sessions == sess_put(old(self)@.sessions, u@),
                    Err(e) => final(self)@.sessions == old(self)@.sessions,
                },
                None => r is Err && r->Err_0@ == session_not_found(id@) && final(self)@.sessions
                    == old(self)@.sessions,
            },
            final(self)@.messages == old(self)@.messages,
            ids_unique(final(self)@.sessions),
    {
        proof {
            use_type_invariant(&*self);
        }
        if self.position(id).is_none() {
            return Err(concat_str("Session not found: ", id));
        }
        let now = match now_millis() {
            Ok(t) => t,
            Err(e) => return Err(e),
        };
        self.update_metadata_at(id, metadata, now)
    }

    /// Remove a session; its messages are kept. Tells whether a session was
    /// removed.
    pub fn delete(&mut self, id: &str) -> (r: Result<bool, String>)
        ensures
            r == Ok::<bool, String>(sess_get(old(self)@.sessions, id@) is Some),
            final(self)@.sessions == sess_remove(old(self)@.sessions, id@),
            final(self)@.messages == old(self)@.messages,
            ids_unique(final(self)@.sessions),
    {
        proof {
            use_type_invariant(&*self);
        }
        match self.position(id) {
            None => Ok(false),
            Some(i) => {
                let ghost old_sessions = svs(self.sessions@);
                let mut sessions: Vec<Session> = Vec::new();
                std::mem::swap(&mut sessions, &mut self.sessions);
                let ghost before = sessions@;
                let _removed = sessions.remove(i);
                assert(svs(sessions@) =~= old_sessions.remove(i as int));
                proof {
                    lemma_remove_unique(old_sessions, id@);
                    let nk = mkeys(self.messages@);
                    assert forall|j: int| 0 <= j < sessions@.len() implies #[trigger] key_index(nk, sessions@[j]@.id) >= 0 by {
                        if j < i {
                            assert(sessions@[j] == before[j]);
                        } else {
                            assert(sessions@[j] == before[j + 1]);
                        }
                    }
                }
                self.sessions = sessions;
                proof {
                    use_type_invariant(&*self);
                }
                Ok(true)
            },
        }
    }

    /// The messages of a session.
    pub fn get_messages(&self, session_id: &str) -> (r: Result<&Vec<MessageWithParts>, String>)
        ensures
            match sess_get(self@.sessions, session_id@) {
                Some(_) => r is Ok && r->Ok_0@ == messages_of(self@.messages, session_id@),
                None => r is Err && r->Err_0@ == session_not_found(session_id@),
            },
    {
        proof {
            use_type_invariant(self);
            lemma_sess_index(self@.sessions, session_id@);
        }
        match self.position(session_id) {
            None => Err(concat_str("Session not found: ", session_id)),
            Some(i) => {
                proof {
                    assert(key_index(mkeys(self.messages@), self.sessions@[i as int]@.id) >= 0);
                }
                match self.list_position(session_id) {
                    Some(j) => Ok(&self.messages[j].1),
                    None => {
                        proof {
                            assert(false);
                        }
                        Err(concat_str("Session not found: ", session_id))
                    },
                }
            },
        }
    }

    /// The first message of a session with id `message_id`.
    pub fn get_message(&self, session_id: &str, msg_id: &str) -> (r: Result<&MessageWithParts, String>)
        ensures
            match sess_get(self@.sessions, session_id@) {
                Some(_) => {
                    let ms = messages_of(self@.messages, session_id@);
                    let k = first_message(ms, msg_id@);
                    if k >= 0 {
                        r is Ok && *r->Ok_0 == ms[k]
                    } else {
                        r is Err && r->Err_0@ == message_not_found(msg_id@)
                    }
                },
                None => r is Err && r->Err_0@ == session_not_found(session_id@),
            },
    {
        let ms = match self.get_messages(session_id) {
            Ok(ms) => ms,
            Err(e) => return Err(e),
        };
        let mut i: usize = 0;
        while i < ms.len()
            invariant
                i <= ms@.len(),
                sess_get(self@.sessions, session_id@) is Some,
                ms@ == messages_of(self@.messages, session_id@),
                forall|j: int| 0 <= j < i ==> message_id(ms@[j].info)@ != msg_id@,
            decreases ms@.len() - i,
        {
            if str_eq(ms[i].info.id().as_str(), msg_id) {
                proof {
                    lemma_first_message(ms@, msg_id@, i as int);
                }
                return Ok(&ms[i]);
            }
            i = i + 1;
        }
        proof {
            lemma_first_message_none(ms@, msg_id@);
        }
        Err(concat_str("Message not found: ", msg_id))
    }

    /// Append a message to the list kept for `session_id`.
    fn push_message(&mut self, session_id: &str, message: MessageWithParts)
        ensures
            final(self)@.sessions == old(self)@.sessions,
            final(self)@.messages == old(self)@.messages.insert(
                session_id@,
                messages_of(old(self)@.messages, session_id@).push(message),
            ),
            ids_unique(final(self)@.sessions),
    {
        proof {
            use_type_invariant(&*self);
        }
        let ghost old_messages = self.messages@;
        let ghost ok = mkeys(old_messages);
        let lpos = self.list_position(session_id);
        let mut sessions: Vec<Session> = Vec::new();
        std::mem::swap(&mut sessions, &mut self.sessions);
        let mut messages: Vec<(String, Vec<MessageWithParts>)> = Vec::new();
        std::mem::swap(&mut messages, &mut self.messages);
        let ghost m = message;
        match lpos {
            Some(j) => {
                let mut entry = (String::new(), Vec::new());
                proof {
                    lemma_key_index(ok, session_id@);
                }
                std::mem::swap(&mut entry, &mut messages[j]);
                let ghost before = entry.1@;
                entry.1.push(message);
                let ghost e = entry;
                messages.set(j, entry);
                proof {
                    assert(messages@ =~= old_messages.update(j as int, e));
                    assert(e.1@ == before.push(m));
                    lemma_map_update(old_messages, j as int, e);
                }
            },
            None => {
                let mut v: Vec<MessageWithParts> = Vec::new();
                v.push(message);
                let e = (owned(session_id), v);
                proof {
                    assert(e.1@ =~= Seq::<MessageWithParts>::empty().push(m));
                    lemma_map_push(old_messages, e);
                }
                messages.push(e);
            },
        }
        proof {
            let nk = mkeys(messages@);
            assert forall|j: int| 0 <= j < sessions@.len() implies #[trigger] key_index(nk, sessions@[j]@.id) >= 0 by {
                let k = sessions@[j]@.id;
                assert(key_index(ok, k) >= 0);
            }
        }
        self.messages = messages;
        self.sessions = sessions;
        proof {
            use_type_invariant(&*self);
        }
    }

    /// Add a message to a session and set the session's update time to
    /// `now`.
    pub fn add_message_at(&mut self, session_id: &str, message: MessageWithParts, now: u64) -> (r: Result<(), String>)
        ensures
            match sess_get(old(self)@.sessions, session_id@) {
                Some(s) => {
                    &&& r is Ok
                    &&& final(self)@.messages == old(self)@.messages.insert(
                        session_id@,
                        messages_of(old(self)@.messages, session_id@).push(message),
                    )
                    &&& final(self)@.sessions == sess_put(old(self)@.sessions, touched(s, None, now))
                },
                None => r is Err && r->Err_0@ == session_not_found(session_id@) && final(self)@
                    == old(self)@,
            },
            ids_unique(final(self)@.sessions),
    {
        proof {
            use_type_invariant(&*self);
        }
        if self.position(session_id).is_none() {
            return Err(concat_str("Session not found: ", session_id));
        }
        self.push_message(session_id, message);
        match self.update_at(session_id, None, now) {
            Ok(_) => Ok(()),
            Err(e) => Err(e),
        }
    }

    /// Add a message to a session and stamp the session with the current
    /// time. When the clock cannot be read the message is kept, the session
    /// is left as it was and the clock error is returned; nothing else
    /// fails for a session that exists.
    pub fn add_message(&mut self, session_id: &str, message: MessageWithParts) -> (r: Result<(), String>)
        ensures
            match sess_get(old(self)@.sessions, session_id@) {
                Some(s) => {
                    &&& final(self)@.messages == old(self)@.messages.insert(
                        session_id@,
                        messages_of(old(self)@.messages, session_id@).push(message),
                    )
                    &&& r is Ok ==> exists|t: u64| final(self)@.sessions == sess_put(old(self)@.sessions, touched(s, None, t))
                    &&& r is Err ==> r->Err_0@ == clock_error() && final(self)@.sessions == old(self)@.sessions
                },
                None => r is Err && r->Err_0@ == session_not_found(session_id@) && final(self)@
                    == old(self)@,
            },
            ids_unique(final(self)@.sessions),
    {
        proof {
            use_type_invariant(&*self);
        }
        if self.position(session_id).is_none() {
            return Err(concat_str("Session not found: ", session_id));
        }
        self.push_message(session_id, message);
        let now = match now_millis() {
            Ok(t) => t,
            Err(e) => return Err(e),
        };
        match self.update_at(session_id, None, now) {
            Ok(_) => Ok(()),
            Err(e) => Err(e),
        }
    }
}

/// Appending a list under a new key adds that key to the map.
proof fn lemma_map_push(old: Seq<(String, Vec<MessageWithParts>)>, e: (String, Vec<MessageWithParts>))
    requires
        key_index(mkeys(old), e.0@) == -1,
    ensures
        message_map(old.push(e)) == message_map(old).insert(e.0@, e.1@),
        forall|k: Seq<char>| key_index(mkeys(old), k) >= 0 ==> #[trigger] key_index(mkeys(old.push(e)), k) >= 0,
        key_index(mkeys(old.push(e)), e.0@) >= 0,
{
    let nm = old.push(e);
    let ok = mkeys(old);
    let nk = mkeys(nm);
    assert(nk =~= ok.push(e.0@));
    assert(nk.drop_last() =~= ok);
    assert forall|k: Seq<char>| k != e.0@ implies key_index(nk, k) == key_index(ok, k) by {}
    assert forall|k: Seq<char>| k != e.0@ && key_index(ok, k) >= 0 implies nm[key_index(nk, k)] == old[key_index(ok, k)] by {
        lemma_key_index(ok, k);
    }
    assert(message_map(nm) =~= message_map(old).insert(e.0@, e.1@));
}

/// Replacing the list at the index of its key changes that key's value.
proof fn lemma_map_update(old: Seq<(String, Vec<MessageWithParts>)>, j: int, e: (String, Vec<MessageWithParts>))
    requires
        0 <= j < old.len(),
        j == key_index(mkeys(old), e.0@),
    ensures
        message_map(old.update(j, e)) == message_map(old).insert(e.0@, e.1@),
        mkeys(old.update(j, e)) == mkeys(old),
{
    let nm = old.update(j, e);
    lemma_key_index(mkeys(old), e.0@);
    assert(mkeys(nm) =~= mkeys(old));
    assert forall|k: Seq<char>| k != e.0@ && key_index(mkeys(old), k) >= 0 implies nm[key_index(mkeys(nm), k)] == old[key_index(mkeys(old), k)] by {
        lemma_key_index(mkeys(old), k);
    }
    assert(message_map(nm) =~= message_map(old).insert(e.0@, e.1@));
}

/// The first message with a given id.
proof fn lemma_first_message(ms: Seq<MessageWithParts>, id: Seq<char>, i: int)
    requires
        0 <= i < ms.len(),
        message_id(ms[i].info)@ == id,
        forall|q: int| 0 <= q < i ==> message_id(ms[q].info)@ != id,
    ensures
        first_message(ms, id) == i,
{
    assert(exists|j: int| 0 <= j < ms.len() && message_id(ms[j].info)@ == id
        && (forall|q: int| 0 <= q < j ==> message_id(ms[q].info)@ != id)) by {
        assert(0 <= i < ms.len() && message_id(ms[i].info)@ == id
            && (forall|q: int| 0 <= q < i ==> message_id(ms[q].info)@ != id));
    }
    let c = first_message(ms, id);
    if c < i {
        assert(message_id(ms[c].info)@ == id);
    } else if c > i {
        assert(message_id(ms[i].info)@ != id);
    }
}

/// No message has the id.
proof fn lemma_first_message_none(ms: Seq<MessageWithParts>, id: Seq<char>)
    requires
        forall|q: int| 0 <= q < ms.len() ==> message_id(ms[q].info)@ != id,
    ensures
        first_message(ms, id) == -1,
{
}

/// Adding a message appends it to the messages of its session and leaves
/// the messages of every other session as they were.
pub proof fn law_messages_after_add(
    m: Map<Seq<char>, Seq<MessageWithParts>>,
    id: Seq<char>,
    msg: MessageWithParts,
    other: Seq<char>,
)
    ensures
        messages_of(m.insert(id, messages_of(m, id).push(msg)), id) == messages_of(m, id).push(msg),
        other != id ==> messages_of(m.insert(id, messages_of(m, id).push(msg)), other) == messages_of(m, other),
{
}

} // verus!
