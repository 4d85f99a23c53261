//! Active terminal sessions by identifier.

use crate::clock::is_reading;
use crate::error::{TerminalError, TerminalResult};
use crate::session::{wait_step, ClosePhase, CloseStep, SessionView, TtySession};
use crate::spawn::{is_session_id, SpawnProcedure, SpawnStage, SpawnView, DEFAULT_SHELL};
use vstd::prelude::*;

verus! {

/// Manages active terminal sessions.
#[derive(Debug)]
pub struct TerminalSessionManager {
    /// Active sessions, no two with the same session ID.
    sessions: Vec<TtySession>,
}

/// A session that was taken out of the manager because it was idle, and was asked to close.
#[derive(Debug)]
pub struct EvictedSession {
    /// The session, now closed.
    pub session: TtySession,
    /// The first step of ending its process, or why there is none.
    pub step: TerminalResult<CloseStep>,
}

/// No two sessions have the same identifier.
pub open spec fn distinct_ids(sessions: Seq<SessionView>) -> bool {
    forall|i: int, j: int|
        0 <= i < j < sessions.len() ==> (#[trigger] sessions[i]).id != (#[trigger] sessions[j]).id
}

/// Position `i` holds the session with the identifier `id`.
pub open spec fn is_at(sessions: Seq<SessionView>, id: Seq<char>, i: int) -> bool {
    0 <= i < sessions.len() && sessions[i].id == id
}

/// The sessions by identifier.
pub open spec fn by_id(sessions: Seq<SessionView>) -> Map<Seq<char>, SessionView> {
    Map::new(
        |id: Seq<char>| exists|i: int| is_at(sessions, id, i),
        |id: Seq<char>| sessions[choose|i: int| is_at(sessions, id, i)],
    )
}

impl View for TerminalSessionManager {
    type V = Map<Seq<char>, SessionView>;

    open spec fn view(&self) -> Map<Seq<char>, SessionView> {
        by_id(self.listed())
    }
}

proof fn lemma_by_id(sessions: Seq<SessionView>, i: int)
    requires
        distinct_ids(sessions),
        0 <= i < sessions.len(),
    ensures
        by_id(sessions).contains_key(sessions[i].id),
        by_id(sessions)[sessions[i].id] == sessions[i],
{
    let id = sessions[i].id;
    assert(is_at(sessions, id, i));
    let j = choose|j: int| is_at(sessions, id, j);
    assert(is_at(sessions, id, j));
    if i < j {
        assert(sessions[i].id != sessions[j].id);
    } else if j < i {
        assert(sessions[j].id != sessions[i].id);
    }
}

/// Changing a session in place, but for its identifier, changes its entry alone.
proof fn lemma_by_id_updated(sessions: Seq<SessionView>, i: int, changed: SessionView)
    requires
        distinct_ids(sessions),
        0 <= i < sessions.len(),
        changed.id == sessions[i].id,
    ensures
        distinct_ids(sessions.update(i, changed)),
        by_id(sessions.update(i, changed)) == by_id(sessions).insert(changed.id, changed),
{
    let updated = sessions.update(i, changed);
    assert forall|id: Seq<char>| #[trigger]
        by_id(updated).contains_key(id) == by_id(sessions).contains_key(id) by {
        if by_id(updated).contains_key(id) {
            let j = choose|j: int| is_at(updated, id, j);
            assert(is_at(sessions, id, j));
        }
        if by_id(sessions).contains_key(id) {
            let j = choose|j: int| is_at(sessions, id, j);
            assert(is_at(updated, id, j));
        }
    }
    lemma_by_id(sessions, i);
    assert forall|id: Seq<char>| by_id(updated).contains_key(id) implies by_id(updated)[id]
        == by_id(sessions).insert(changed.id, changed)[id] by {
        let j = choose|j: int| is_at(updated, id, j);
        lemma_by_id(updated, j);
        lemma_by_id(sessions, j);
        if j == i {
            assert(id == changed.id);
        } else {
            assert(updated[j] == sessions[j]);
            if j < i {
                assert(sessions[j].id != sessions[i].id);
            } else {
                assert(sessions[i].id != sessions[j].id);
            }
        }
    }
    assert(by_id(updated) =~= by_id(sessions).insert(changed.id, changed));
}

/// Adding a session under a new identifier adds its entry alone.
proof fn lemma_by_id_pushed(sessions: Seq<SessionView>, added: SessionView)
    requires
        distinct_ids(sessions),
        !by_id(sessions).contains_key(added.id),
    ensures
        distinct_ids(sessions.push(added)),
        by_id(sessions.push(added)) == by_id(sessions).insert(added.id, added),
{
    let pushed = sessions.push(added);
    assert forall|i: int, j: int| 0 <= i < j < pushed.len() implies (#[trigger] pushed[i]).id != (
    #[trigger] pushed[j]).id by {
        if j == sessions.len() {
            assert(!is_at(sessions, added.id, i));
        }
    }
    assert forall|id: Seq<char>| #[trigger]
        by_id(pushed).contains_key(id) == by_id(sessions).insert(added.id, added).contains_key(
            id,
        ) by {
        if by_id(pushed).contains_key(id) {
            let j = choose|j: int| is_at(pushed, id, j);
            if j < sessions.len() {
                assert(is_at(sessions, id, j));
            }
        }
        if by_id(sessions).contains_key(id) {
            let j = choose|j: int| is_at(sessions, id, j);
            assert(is_at(pushed, id, j));
        }
        assert(is_at(pushed, added.id, sessions.len() as int));
    }
    assert forall|id: Seq<char>| by_id(pushed).contains_key(id) implies by_id(pushed)[id] == by_id(
        sessions,
    ).insert(added.id, added)[id] by {
        let j = choose|j: int| is_at(pushed, id, j);
        lemma_by_id(pushed, j);
        if j < sessions.len() {
            lemma_by_id(sessions, j);
        }
    }
    assert(by_id(pushed) =~= by_id(sessions).insert(added.id, added));
}

/// Taking a session out removes its entry alone.
proof fn lemma_by_id_removed(sessions: Seq<SessionView>, at: int)
    requires
        distinct_ids(sessions),
        0 <= at < sessions.len(),
    ensures
        distinct_ids(sessions.remove(at)),
        by_id(sessions.remove(at)) == by_id(sessions).remove(sessions[at].id),
{
    let left = sessions.remove(at);
    let gone = sessions[at].id;
    assert forall|i: int, j: int| 0 <= i < j < left.len() implies (#[trigger] left[i]).id != (
    #[trigger] left[j]).id by {
        let i0 = if i < at { i } else { i + 1 };
        let j0 = if j < at { j } else { j + 1 };
        assert(sessions[i0].id != sessions[j0].id);
    }
    assert forall|id: Seq<char>| #[trigger]
        by_id(left).contains_key(id) == by_id(sessions).remove(gone).contains_key(id) by {
        if by_id(left).contains_key(id) {
            let j = choose|j: int| is_at(left, id, j);
            let j0 = if j < at { j } else { j + 1 };
            assert(is_at(sessions, id, j0));
            if j0 < at {
                assert(sessions[j0].id != sessions[at].id);
            } else {
                assert(sessions[at].id != sessions[j0].id);
            }
        }
        if by_id(sessions).contains_key(id) && id != gone {
            let j0 = choose|j: int| is_at(sessions, id, j);
            let j = if j0 < at { j0 } else { j0 - 1 };
            assert(is_at(left, id, j));
        }
    }
    assert forall|id: Seq<char>| by_id(left).contains_key(id) implies by_id(left)[id] == by_id(
        sessions,
    ).remove(gone)[id] by {
        let j = choose|j: int| is_at(left, id, j);
        lemma_by_id(left, j);
        lemma_by_id(sessions, if j < at { j } else { j + 1 });
    }
    assert(by_id(left) =~= by_id(sessions).remove(gone));
}

/// There are as many entries as sessions.
proof fn lemma_by_id_len(sessions: Seq<SessionView>)
    requires
        distinct_ids(sessions),
    ensures
        by_id(sessions).dom().finite(),
        by_id(sessions).dom().len() == sessions.len(),
    decreases sessions.len(),
{
    if sessions.len() == 0 {
        assert(by_id(sessions).dom() =~= Set::<Seq<char>>::empty());
    } else {
        let fewer = sessions.drop_last();
        let last = sessions.last();
        assert(distinct_ids(fewer)) by {
            assert forall|i: int, j: int| 0 <= i < j < fewer.len() implies (#[trigger] fewer[i]).id
                != (#[trigger] fewer[j]).id by {
                assert(sessions[i].id != sessions[j].id);
            }
        }
        lemma_by_id_len(fewer);
        assert(!by_id(fewer).contains_key(last.id)) by {
            if by_id(fewer).contains_key(last.id) {
                let j = choose|j: int| is_at(fewer, last.id, j);
                assert(sessions[j].id != sessions[sessions.len() - 1].id);
            }
        }
        lemma_by_id_pushed(fewer, last);
        assert(fewer.push(last) =~= sessions);
        assert(by_id(sessions).dom() =~= by_id(fewer).dom().insert(last.id));
    }
}

impl TerminalSessionManager {
    /// The sessions in the order in which they are listed.
    pub closed spec fn listed(&self) -> Seq<SessionView> {
        self.sessions@.map_values(|session: TtySession| session@)
    }

    /// No two sessions have the same identifier.
    pub open spec fn valid(&self) -> bool {
        distinct_ids(self.listed())
    }

    /// Create a new terminal session manager.
    pub fn new() -> (manager: Self)
        ensures
            manager.valid(),
            manager@ == Map::<Seq<char>, SessionView>::empty(),
            manager.listed() == Seq::<SessionView>::empty(),
    {
        let manager = TerminalSessionManager { sessions: Vec::new() };
        assert(manager.listed() =~= Seq::<SessionView>::empty());
        assert(manager@ =~= Map::<Seq<char>, SessionView>::empty());
        manager
    }

    /// The position of the session with the identifier `session_id`.
    fn position(&self, session_id: &str) -> (found: Option<usize>)
        requires
            self.valid(),
        ensures
            match found {
                Some(i) => is_at(self.listed(), session_id@, i as int) && self@.contains_key(
                    session_id@,
                ) && self@[session_id@] == self.listed()[i as int],
                None => !self@.contains_key(session_id@),
            },
            found matches Some(i) ==> i < self.sessions@.len(),
    {
        let wanted = String::from(session_id);
        for i in 0..self.sessions.len()
            invariant
                self.valid(),
                wanted@ == session_id@,
                forall|j: int| 0 <= j < i ==> (#[trigger] self.listed()[j]).id != session_id@,
        {
            if self.sessions[i].has_id(&wanted) {
                proof {
                    assert(self.listed()[i as int] == self.sessions@[i as int]@);
                    lemma_by_id(self.listed(), i as int);
                }
                return Some(i);
            }
            assert(self.listed()[i as int] == self.sessions@[i as int]@);
        }
        None
    }

    /// Get an existing session by ID.
    pub fn get_session(&self, session_id: &str) -> (found: Option<&TtySession>)
        requires
            self.valid(),
        ensures
            match found {
                Some(session) => self@.contains_key(session_id@) && self@[session_id@] == session@,
                None => !self@.contains_key(session_id@),
            },
    {
        match self.position(session_id) {
            Some(i) => Some(&self.sessions[i]),
            None => None,
        }
    }

    /// Get an existing session by ID, to operate on it.
    pub fn get_session_mut(&mut self, session_id: &str) -> (found: Option<&mut TtySession>)
        requires
            old(self).valid(),
        ensures
            match found {
                Some(session) => {
                    &&& old(self)@.contains_key(session_id@)
                    &&& session@ == old(self)@[session_id@]
                    &&& final(session)@.id == session_id@ ==> {
                        &&& final(self).valid()
                        &&& final(self)@ == old(self)@.insert(session_id@, final(session)@)
                    }
                },
                None => !old(self)@.contains_key(session_id@) && final(self).listed() == old(
                    self,
                ).listed(),
            },
    {
        match self.position(session_id) {
            Some(i) => {
                proof {
                    let listed = self.listed();
                    let all = self.sessions@;
                    assert forall|changed: TtySession| changed@.id == session_id@ implies {
                        let updated = (#[trigger] all.update(i as int, changed)).map_values(
                            |session: TtySession| session@,
                        );
                        distinct_ids(updated) && by_id(updated) == by_id(listed).insert(
                            session_id@,
                            changed@,
                        )
                    } by {
                        assert(all.update(i as int, changed).map_values(
                            |session: TtySession| session@,
                        ) =~= listed.update(i as int, changed@));
                        lemma_by_id_updated(listed, i as int, changed@);
                    }
                }
                Some(&mut self.sessions[i])
            },
            None => None,
        }
    }

    /// Create a new terminal session, with the default shell unless another is asked for.
    ///
    /// Returns the procedure that opens it; [`TerminalSessionManager::store_session`] takes its
    /// result.
    pub fn create_session(&self, shell: Option<String>, cols: u16, rows: u16) -> (procedure:
        SpawnProcedure)
        ensures
            is_session_id(procedure@.id),
            procedure@ == (SpawnView {
                id: procedure@.id,
                shell: match shell {
                    Some(path) => path@,
                    None => DEFAULT_SHELL@,
                },
                cols,
                rows,
                stage: SpawnStage::OpeningPty,
            }),
    {
        match shell {
            Some(path) => TtySession::spawn(&path, cols, rows),
            None => TtySession::spawn(DEFAULT_SHELL, cols, rows),
        }
    }

    /// Store a session that was opened, in place of one with the same ID.
    ///
    /// Returns the session ID, or the description of the error if none was opened.
    pub fn store_session(&mut self, opened: TerminalResult<TtySession>) -> (stored: Result<
        String,
        String,
    >)
        requires
            old(self).valid(),
        ensures
            final(self).valid(),
            match opened {
                Ok(session) => {
                    &&& stored matches Ok(id) && id@ == session@.id
                    &&& final(self)@ == old(self)@.insert(session@.id, session@)
                },
                Err(error) => {
                    &&& stored matches Err(text) && text@ == error@.text()
                    &&& final(self)@ == old(self)@
                },
            },
    {
        match opened {
            Ok(session) => {
                let session_id = String::from(session.session_id());
                let ghost listed = self.listed();
                match self.position(&session_id) {
                    Some(i) => {
                        proof {
                            lemma_by_id_updated(listed, i as int, session@);
                        }
                        self.sessions.set(i, session);
                        assert(self.listed() =~= listed.update(i as int, session@));
                    },
                    None => {
                        proof {
                            lemma_by_id_pushed(listed, session@);
                        }
                        self.sessions.push(session);
                        assert(self.listed() =~= listed.push(session@));
                    },
                }
                Ok(session_id)
            },
            Err(error) => Err(error.to_string()),
        }
    }

    /// Remove a session.
    pub fn remove_session(&mut self, session_id: &str) -> (removed: Option<TtySession>)
        requires
            old(self).valid(),
        ensures
            final(self).valid(),
            match removed {
                Some(session) => old(self)@.contains_key(session_id@) && session@ == old(
                    self,
                )@[session_id@],
                None => !old(self)@.contains_key(session_id@),
            },
            final(self)@ == old(self)@.remove(session_id@),
    {
        let ghost listed = self.listed();
        match self.position(session_id) {
            Some(i) => {
                proof {
                    lemma_by_id_removed(listed, i as int);
                }
                let session = self.sessions.remove(i);
                assert(self.listed() =~= listed.remove(i as int));
                Some(session)
            },
            None => {
                assert(self@.remove(session_id@) =~= self@);
                None
            },
        }
    }

    /// Get count of active sessions.
    pub fn session_count(&self) -> (count: usize)
        requires
            self.valid(),
        ensures
            self@.dom().finite(),
            count == self@.dom().len(),
            count == self.listed().len(),
    {
        proof {
            lemma_by_id_len(self.listed());
        }
        self.sessions.len()
    }

    /// How long each session has been idle, in nanoseconds, in the order of the sessions.
    pub fn idle_durations(&self) -> (idle: Vec<u128>)
        ensures
            measured(self.listed(), idle@),
    {
        let mut idle: Vec<u128> = Vec::new();
        for i in 0..self.sessions.len()
            invariant
                self.listed() == self.sessions@.map_values(|session: TtySession| session@),
                measured(self.listed().take(i as int), idle@),
        {
            let nanos: u128 = self.sessions[i].idle_duration();
            let ghost before = idle@;
            idle.push(nanos);
            proof {
                let listed = self.listed().take(i + 1);
                assert forall|j: int| 0 <= j < listed.len() implies was_idle(
                    listed[j],
                    #[trigger] idle@[j],
                ) by {
                    if j < i {
                        assert(listed[j] == self.listed().take(i as int)[j]);
                        assert(idle@[j] == before[j]);
                    } else {
                        assert(listed[j] == self.sessions@[i as int]@);
                    }
                }
            }
        }
        assert(self.listed().take(self.sessions@.len() as int) =~= self.listed());
        idle
    }

    /// Take out and close the sessions that have been idle for longer than `max_idle` nanoseconds,
    /// given how long each has been idle, in the order of the sessions.
    pub fn evict_idle(&mut self, idle: &Vec<u128>, max_idle: u128) -> (evicted: Vec<EvictedSession>)
        requires
            old(self).valid(),
            idle@.len() == old(self).listed().len(),
        ensures
            final(self).valid(),
            final(self).listed() == kept_sessions(old(self).listed(), idle@, max_idle),
            closed_all(evicted@, idle_sessions(old(self).listed(), idle@, max_idle)),
    {
        let ghost listed = self.listed();
        let mut sessions: Vec<TtySession> = Vec::new();
        std::mem::swap(&mut sessions, &mut self.sessions);
        let mut evicted: Vec<EvictedSession> = Vec::new();
        let ghost all = sessions@;
        assert(listed =~= all.map_values(|session: TtySession| session@));
        let mut i: usize = 0;
        let count: usize = idle.len();
        for session in it: sessions
            invariant
                it.seq() == all,
                i == it.index(),
                count == idle@.len(),
                count == all.len(),
                listed == all.map_values(|session: TtySession| session@),
                self.listed() == kept_sessions(listed.take(i as int), idle@, max_idle),
                closed_all(evicted@, idle_sessions(listed.take(i as int), idle@, max_idle)),
        {
            proof {
                assert(listed.take(i + 1).drop_last() =~= listed.take(i as int));
                assert(listed.take(i + 1).last() == session@);
            }
            if idle[i] > max_idle {
                let mut closing = session;
                let step = closing.close();
                evicted.push(EvictedSession { session: closing, step });
            } else {
                let ghost before = self.listed();
                self.sessions.push(session);
                assert(self.listed() =~= before.push(session@));
            }
            i = i + 1;
        }
        proof {
            assert(listed.take(listed.len() as int) =~= listed);
            law_cleanup(listed, idle@, max_idle);
        }
        evicted
    }

    /// Clean up idle sessions: take out and close those that have been idle for longer than
    /// `max_idle` nanoseconds.
    pub fn cleanup_idle_sessions(&mut self, max_idle: u128) -> (evicted: Vec<EvictedSession>)
        requires
            old(self).valid(),
        ensures
            final(self).valid(),
            exists|idle: Seq<u128>|
                {
                    &&& #[trigger] measured(old(self).listed(), idle)
                    &&& final(self).listed() == kept_sessions(old(self).listed(), idle, max_idle)
                    &&& closed_all(evicted@, idle_sessions(old(self).listed(), idle, max_idle))
                },
    {
        let idle = self.idle_durations();
        self.evict_idle(&idle, max_idle)
    }
}

/// `idle` holds, for each session, how long it had been idle at some moment.
pub open spec fn measured(sessions: Seq<SessionView>, idle: Seq<u128>) -> bool {
    &&& idle.len() == sessions.len()
    &&& forall|i: int| 0 <= i < sessions.len() ==> was_idle(sessions[i], #[trigger] idle[i])
}

/// At some moment since its last activity the session had been idle for `nanos` nanoseconds.
pub open spec fn was_idle(session: SessionView, nanos: u128) -> bool {
    exists|now: nat|
        is_reading(now, session.last_activity) && nanos == #[trigger] session.idle(now)
}

/// The sessions that have been idle for at most `max_idle`.
pub open spec fn kept_sessions(
    sessions: Seq<SessionView>,
    idle: Seq<u128>,
    max_idle: u128,
) -> Seq<SessionView>
    decreases sessions.len(),
{
    if sessions.len() == 0 {
        sessions
    } else {
        let kept = kept_sessions(sessions.drop_last(), idle, max_idle);
        if idle[sessions.len() - 1] <= max_idle {
            kept.push(sessions.last())
        } else {
            kept
        }
    }
}

/// The sessions that have been idle for longer than `max_idle`.
pub open spec fn idle_sessions(
    sessions: Seq<SessionView>,
    idle: Seq<u128>,
    max_idle: u128,
) -> Seq<SessionView>
    decreases sessions.len(),
{
    if sessions.len() == 0 {
        sessions
    } else {
        let found = idle_sessions(sessions.drop_last(), idle, max_idle);
        if idle[sessions.len() - 1] > max_idle {
            found.push(sessions.last())
        } else {
            found
        }
    }
}

/// `evicted` are the `sessions`, each after it was asked to close.
pub open spec fn closed_all(evicted: Seq<EvictedSession>, sessions: Seq<SessionView>) -> bool {
    &&& evicted.len() == sessions.len()
    &&& forall|i: int|
        0 <= i < evicted.len() ==> {
            &&& (#[trigger] evicted[i]).session@ == sessions[i].shut()
            &&& evicted[i].step == if sessions[i].closed {
                Err::<CloseStep, TerminalError>(TerminalError::AlreadyClosed)
            } else {
                Ok(wait_step(sessions[i].pid, ClosePhase::Terminating))
            }
        }
}

/// Cleaning up takes out exactly the sessions that have been idle for too long: every other one
/// stays under its identifier, unchanged, and nothing is added.
pub proof fn law_cleanup(sessions: Seq<SessionView>, idle: Seq<u128>, max_idle: u128)
    requires
        distinct_ids(sessions),
        idle.len() == sessions.len(),
    ensures
        distinct_ids(kept_sessions(sessions, idle, max_idle)),
        ({
            let left = by_id(kept_sessions(sessions, idle, max_idle));
            &&& forall|i: int|
                0 <= i < sessions.len() ==> (left.contains_key((#[trigger] sessions[i]).id) <==>
                    idle[i] <= max_idle)
            &&& forall|i: int|
                0 <= i < sessions.len() && idle[i] <= max_idle ==> left[(#[trigger] sessions[i]).id]
                    == sessions[i]
            &&& left.dom().subset_of(by_id(sessions).dom())
        }),
{
    lemma_cleanup(sessions, idle, max_idle);
    let kept = kept_sessions(sessions, idle, max_idle);
    let left = by_id(kept);
    assert forall|i: int| 0 <= i < sessions.len() implies (left.contains_key(
        (#[trigger] sessions[i]).id,
    ) <==> idle[i] <= max_idle) && (idle[i] <= max_idle ==> left[sessions[i].id] == sessions[i]) by {
        if idle[i] <= max_idle {
            let j = choose|j: int| 0 <= j < kept.len() && kept[j] == sessions[i];
            lemma_by_id(kept, j);
        } else if left.contains_key(sessions[i].id) {
            let j = choose|j: int| is_at(kept, sessions[i].id, j);
            assert(survives(sessions, idle, max_idle, kept[j]));
            let k = choose|k: int| stays(sessions, idle, max_idle, kept[j], k);
            if k < i {
                assert(sessions[k].id != sessions[i].id);
            } else if i < k {
                assert(sessions[i].id != sessions[k].id);
            }
        }
    }
    assert forall|id: Seq<char>| left.dom().contains(id) implies by_id(sessions).dom().contains(
        id,
    ) by {
        let j = choose|j: int| is_at(kept, id, j);
        assert(survives(sessions, idle, max_idle, kept[j]));
        let k = choose|k: int| stays(sessions, idle, max_idle, kept[j], k);
        assert(is_at(sessions, id, k));
    }
}

/// `session` is at position `k`, and has not been idle for too long.
spec fn stays(
    sessions: Seq<SessionView>,
    idle: Seq<u128>,
    max_idle: u128,
    session: SessionView,
    k: int,
) -> bool {
    0 <= k < sessions.len() && sessions[k] == session && idle[k] <= max_idle
}

/// `session` is one of the sessions, and has not been idle for too long.
spec fn survives(
    sessions: Seq<SessionView>,
    idle: Seq<u128>,
    max_idle: u128,
    session: SessionView,
) -> bool {
    exists|k: int| stays(sessions, idle, max_idle, session, k)
}

proof fn lemma_cleanup(sessions: Seq<SessionView>, idle: Seq<u128>, max_idle: u128)
    requires
        distinct_ids(sessions),
        idle.len() >= sessions.len(),
    ensures
        ({
            let kept = kept_sessions(sessions, idle, max_idle);
            &&& distinct_ids(kept)
            &&& forall|j: int|
                0 <= j < kept.len() ==> survives(sessions, idle, max_idle, #[trigger] kept[j])
            &&& forall|k: int|
                0 <= k < sessions.len() && idle[k] <= max_idle ==> kept.contains(
                    #[trigger] sessions[k],
                )
        }),
    decreases sessions.len(),
{
    if sessions.len() > 0 {
        let fewer = sessions.drop_last();
        assert forall|i: int, j: int| 0 <= i < j < fewer.len() implies (#[trigger] fewer[i]).id != (
        #[trigger] fewer[j]).id by {
            assert(sessions[i].id != sessions[j].id);
        }
        lemma_cleanup(fewer, idle, max_idle);
        let before = kept_sessions(fewer, idle, max_idle);
        let kept = kept_sessions(sessions, idle, max_idle);
        let last = sessions.len() - 1;
        assert forall|j: int| 0 <= j < kept.len() implies survives(
            sessions,
            idle,
            max_idle,
            #[trigger] kept[j],
        ) by {
            if j < before.len() {
                assert(survives(fewer, idle, max_idle, before[j]));
                let k = choose|k: int| stays(fewer, idle, max_idle, before[j], k);
                assert(stays(sessions, idle, max_idle, kept[j], k));
            } else {
                assert(stays(sessions, idle, max_idle, kept[j], last));
            }
        }
        assert forall|k: int| 0 <= k < sessions.len() && idle[k] <= max_idle implies kept.contains(
            #[trigger] sessions[k],
        ) by {
            if k < last {
                assert(fewer[k] == sessions[k]);
                let j = choose|j: int| 0 <= j < before.len() && before[j] == fewer[k];
                assert(kept[j] == sessions[k]);
            } else {
                assert(kept[kept.len() - 1] == sessions[k]);
            }
        }
        assert forall|i: int, j: int| 0 <= i < j < kept.len() implies (#[trigger] kept[i]).id != (
        #[trigger] kept[j]).id by {
            if j == before.len() {
                assert(survives(fewer, idle, max_idle, before[i]));
                let k = choose|k: int| stays(fewer, idle, max_idle, before[i], k);
                assert(sessions[k].id != sessions[last].id);
            } else {
                assert(before[i].id != before[j].id);
            }
        }
    }
}

/// What is stored is found under its identifier, what is removed is gone, and neither touches
/// another session.
pub proof fn law_store_and_remove(
    sessions: Map<Seq<char>, SessionView>,
    session: SessionView,
    other: Seq<char>,
)
    requires
        other != session.id,
    ensures
        sessions.insert(session.id, session)[session.id] == session,
        !sessions.insert(session.id, session).remove(session.id).contains_key(session.id),
        sessions.insert(session.id, session).contains_key(other) == sessions.contains_key(other),
        sessions.remove(session.id).contains_key(other) == sessions.contains_key(other),
        sessions.insert(session.id, session)[other] == sessions[other],
        sessions.remove(session.id)[other] == sessions[other],
        !sessions.contains_key(session.id) ==> sessions.insert(session.id, session).remove(
            session.id,
        ) == sessions,
{
    if !sessions.contains_key(session.id) {
        assert(sessions.insert(session.id, session).remove(session.id) =~= sessions);
    }
}

/// Nanoseconds between two clean-ups, given the idle timeout in nanoseconds: half of it.
pub fn cleanup_interval(idle_timeout: u128) -> (interval: u128)
    ensures
        interval == idle_timeout / 2,
{
    idle_timeout / 2
}

/// State for the terminal WebSocket handler.
#[derive(Debug)]
pub struct TerminalState {
    /// Terminal session manager.
    pub manager: TerminalSessionManager,
}

impl Default for TerminalSessionManager {
    fn default() -> (manager: Self)
        ensures
            manager.valid(),
            manager@ == Map::<Seq<char>, SessionView>::empty(),
    {
        TerminalSessionManager::new()
    }
}

impl Default for TerminalState {
    fn default() -> (state: Self)
        ensures
            state.manager.valid(),
            state.manager@ == Map::<Seq<char>, SessionView>::empty(),
    {
        TerminalState { manager: TerminalSessionManager::new() }
    }
}

/// Each session is found under its own identifier, and nothing under another one.
pub proof fn law_sessions_are_found(sessions: Seq<SessionView>)
    requires
        forall|i: int, j: int|
            0 <= i < j < sessions.len() ==> (#[trigger] sessions[i]).id != (
            #[trigger] sessions[j]).id,
    ensures
        forall|i: int|
            0 <= i < sessions.len() ==> by_id(sessions).contains_key((#[trigger] sessions[i]).id)
                && by_id(sessions)[sessions[i].id] == sessions[i],
        forall|id: Seq<char>| #[trigger]
            by_id(sessions).contains_key(id) ==> exists|i: int|
                0 <= i < sessions.len() && (#[trigger] sessions[i]).id == id,
{
    assert forall|i: int| 0 <= i < sessions.len() implies by_id(sessions).contains_key(
        (#[trigger] sessions[i]).id,
    ) && by_id(sessions)[sessions[i].id] == sessions[i] by {
        lemma_by_id(sessions, i);
    }
    assert forall|id: Seq<char>| #[trigger] by_id(sessions).contains_key(id) implies exists|i: int|
        0 <= i < sessions.len() && (#[trigger] sessions[i]).id == id by {
        let i = choose|i: int| is_at(sessions, id, i);
        assert(sessions[i].id == id);
    }
}

proof fn lemma_evicted(sessions: Seq<SessionView>, idle: Seq<u128>, max_idle: u128)
    requires
        idle.len() >= sessions.len(),
    ensures
        ({
            let kept = kept_sessions(sessions, idle, max_idle);
            let gone = idle_sessions(sessions, idle, max_idle);
            &&& kept.len() + gone.len() == sessions.len()
            &&& forall|j: int|
                0 <= j < gone.len() ==> leaves(sessions, idle, max_idle, #[trigger] gone[j])
            &&& forall|k: int|
                0 <= k < sessions.len() && idle[k] > max_idle ==> gone.contains(
                    #[trigger] sessions[k],
                )
        }),
    decreases sessions.len(),
{
    if sessions.len() > 0 {
        let fewer = sessions.drop_last();
        lemma_evicted(fewer, idle, max_idle);
        let before = idle_sessions(fewer, idle, max_idle);
        let gone = idle_sessions(sessions, idle, max_idle);
        let last = sessions.len() - 1;
        assert forall|j: int| 0 <= j < gone.len() implies leaves(
            sessions,
            idle,
            max_idle,
            #[trigger] gone[j],
        ) by {
            if j < before.len() {
                assert(leaves(fewer, idle, max_idle, before[j]));
                let k = choose|k: int| goes(fewer, idle, max_idle, before[j], k);
                assert(goes(sessions, idle, max_idle, gone[j], k));
            } else {
                assert(goes(sessions, idle, max_idle, gone[j], last));
            }
        }
        assert forall|k: int| 0 <= k < sessions.len() && idle[k] > max_idle implies gone.contains(
            #[trigger] sessions[k],
        ) by {
            if k < last {
                assert(fewer[k] == sessions[k]);
                let j = choose|j: int| 0 <= j < before.len() && before[j] == fewer[k];
                assert(gone[j] == sessions[k]);
            } else {
                assert(gone[gone.len() - 1] == sessions[k]);
            }
        }
    }
}

/// `session` is at position `k`, and has been idle for too long.
spec fn goes(
    sessions: Seq<SessionView>,
    idle: Seq<u128>,
    max_idle: u128,
    session: SessionView,
    k: int,
) -> bool {
    0 <= k < sessions.len() && sessions[k] == session && idle[k] > max_idle
}

/// `session` is one of the sessions, and has been idle for too long.
spec fn leaves(
    sessions: Seq<SessionView>,
    idle: Seq<u128>,
    max_idle: u128,
    session: SessionView,
) -> bool {
    exists|k: int| goes(sessions, idle, max_idle, session, k)
}

/// Cleaning up when the clocks of the sessions read `now` takes out exactly the sessions whose last
/// activity is longer ago than `max_idle` nanoseconds; every other one stays under its identifier,
/// unchanged.
pub proof fn law_cleanup_by_time(
    sessions: Seq<SessionView>,
    now: Seq<nat>,
    idle: Seq<u128>,
    max_idle: u128,
)
    requires
        forall|i: int, j: int|
            0 <= i < j < sessions.len() ==> (#[trigger] sessions[i]).id != (
            #[trigger] sessions[j]).id,
        idle.len() == sessions.len(),
        forall|i: int|
            0 <= i < sessions.len() ==> (#[trigger] sessions[i]).last_activity <= now[i] && idle[i]
                == sessions[i].idle(now[i]),
    ensures
        ({
            let kept = kept_sessions(sessions, idle, max_idle);
            let gone = idle_sessions(sessions, idle, max_idle);
            &&& kept.len() + gone.len() == sessions.len()
            &&& forall|i: int|
                0 <= i < sessions.len() ==> (kept.contains(#[trigger] sessions[i]) <==> now[i]
                    - sessions[i].last_activity <= max_idle)
            &&& forall|i: int|
                0 <= i < sessions.len() ==> (gone.contains(#[trigger] sessions[i]) <==> now[i]
                    - sessions[i].last_activity > max_idle)
            &&& forall|i: int|
                0 <= i < sessions.len() ==> (by_id(kept).contains_key((#[trigger] sessions[i]).id)
                    <==> now[i] - sessions[i].last_activity <= max_idle)
        }),
{
    let kept = kept_sessions(sessions, idle, max_idle);
    let gone = idle_sessions(sessions, idle, max_idle);
    lemma_cleanup(sessions, idle, max_idle);
    lemma_evicted(sessions, idle, max_idle);
    law_cleanup(sessions, idle, max_idle);
    assert forall|i: int, k: int| 0 <= i < sessions.len() && 0 <= k < sessions.len() && (
    #[trigger] sessions[i]) == (#[trigger] sessions[k]) implies i == k by {
        if i < k {
            assert(sessions[i].id != sessions[k].id);
        } else if k < i {
            assert(sessions[k].id != sessions[i].id);
        }
    }
    assert forall|i: int| 0 <= i < sessions.len() implies (kept.contains(#[trigger] sessions[i])
        <==> idle[i] <= max_idle) && (gone.contains(sessions[i]) <==> idle[i] > max_idle) by {
        if kept.contains(sessions[i]) {
            let j = choose|j: int| 0 <= j < kept.len() && kept[j] == sessions[i];
            assert(survives(sessions, idle, max_idle, kept[j]));
            let k = choose|k: int| stays(sessions, idle, max_idle, kept[j], k);
            assert(sessions[k] == sessions[i]);
        }
        if gone.contains(sessions[i]) {
            let j = choose|j: int| 0 <= j < gone.len() && gone[j] == sessions[i];
            assert(leaves(sessions, idle, max_idle, gone[j]));
            let k = choose|k: int| goes(sessions, idle, max_idle, gone[j], k);
            assert(sessions[k] == sessions[i]);
        }
    }
}

/// Each session that is taken out is closed and otherwise unchanged, and its process is asked to exit
/// unless the session was closed already.
pub proof fn law_evicted_sessions_are_closed(
    evicted: Seq<EvictedSession>,
    sessions: Seq<SessionView>,
    i: int,
)
    requires
        closed_all(evicted, sessions),
        0 <= i < sessions.len(),
    ensures
        evicted.len() == sessions.len(),
        evicted[i].session@.closed,
        evicted[i].session@.id == sessions[i].id,
        evicted[i].session@.pid == sessions[i].pid,
        sessions[i].closed ==> evicted[i].step == Err::<CloseStep, TerminalError>(
            TerminalError::AlreadyClosed,
        ),
        !sessions[i].closed ==> (evicted[i].step matches Ok(
            CloseStep::Wait { phase, request, timeout_secs },
        ) && phase is Terminating && request.pid == sessions[i].pid as i32
            && request.signal is Terminate && timeout_secs == 5),
{
    assert(evicted[i].session@ == sessions[i].shut());
}

/// A measured idle time is the time from the last activity of its session to a reading of its clock.
pub proof fn law_measured_times(sessions: Seq<SessionView>, idle: Seq<u128>, i: int)
    requires
        measured(sessions, idle),
        0 <= i < sessions.len(),
    ensures
        idle.len() == sessions.len(),
        is_reading(sessions[i].last_activity + idle[i] as nat, sessions[i].last_activity),
{
    assert(was_idle(sessions[i], idle[i]));
}

} // verus!
