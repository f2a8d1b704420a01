//! The playback sessions that are open.

use vstd::prelude::*;
use vstd::string::*;

use crate::text::same_text;

verus! {

/// How long a session stays open without a request, in nanoseconds.
pub const SESSION_IDLE_TTL: u128 = 300_000_000_000;

/// A session: the video that it plays, when it was last used, and what its owner needs to read
/// the video.
pub struct PlaybackSession<H> {
    /// The name of the video.
    pub video_id: String,
    /// The size of the video.
    pub original_size: u64,
    /// The time of the last request, in nanoseconds.
    pub last_access: u128,
    /// What the owner of the sessions keeps for this one.
    pub handle: H,
}

/// A `PlaybackSession` with its text as a sequence.
pub struct SessionView<H> {
    pub video_id: Seq<char>,
    pub original_size: u64,
    pub last_access: u128,
    pub handle: H,
}

impl<H> View for PlaybackSession<H> {
    type V = SessionView<H>;

    open spec fn view(&self) -> SessionView<H> {
        SessionView {
            video_id: self.video_id@,
            original_size: self.original_size,
            last_access: self.last_access,
            handle: self.handle,
        }
    }
}

struct Entry<H> {
    session_id: String,
    session: PlaybackSession<H>,
}

/// The sessions that are open, by their names.
pub struct PlaybackState<H> {
    entries: Vec<Entry<H>>,
}

/// Whether a session was used recently.
pub open spec fn is_alive<H>(session: SessionView<H>, now: u128) -> bool {
    now < session.last_access + SESSION_IDLE_TTL
}

/// A session that was used at the given time.
pub open spec fn used<H>(session: SessionView<H>, now: u128) -> SessionView<H> {
    SessionView { last_access: now, ..session }
}

/// The sessions that are left after the idle ones were closed.
pub open spec fn alive_sessions<H>(
    sessions: Map<Seq<char>, SessionView<H>>,
    now: u128,
) -> Map<Seq<char>, SessionView<H>> {
    Map::new(
        |id: Seq<char>| sessions.contains_key(id) && is_alive(sessions[id], now),
        |id: Seq<char>| sessions[id],
    )
}

spec fn stands_at<H>(entries: Seq<Entry<H>>, id: Seq<char>, i: int) -> bool {
    0 <= i < entries.len() && entries[i].session_id@ == id
}

spec fn sessions_of<H>(entries: Seq<Entry<H>>) -> Map<Seq<char>, SessionView<H>> {
    Map::new(
        |id: Seq<char>| exists|i: int| stands_at(entries, id, i),
        |id: Seq<char>| entries[choose|i: int| stands_at(entries, id, i)].session@,
    )
}

spec fn unique<H>(entries: Seq<Entry<H>>) -> bool {
    forall|i: int, j: int|
        0 <= i < j < entries.len() ==> (#[trigger] entries[i]).session_id@ != (
        #[trigger] entries[j]).session_id@
}

proof fn entry_is_found<H>(entries: Seq<Entry<H>>, i: int)
    requires
        unique(entries),
        0 <= i < entries.len(),
    ensures
        sessions_of(entries).contains_key(entries[i].session_id@),
        sessions_of(entries)[entries[i].session_id@] == entries[i].session@,
{
    assert(stands_at(entries, entries[i].session_id@, i));
}

proof fn found_is_entry<H>(entries: Seq<Entry<H>>, id: Seq<char>) -> (i: int)
    requires
        unique(entries),
        sessions_of(entries).contains_key(id),
    ensures
        stands_at(entries, id, i),
        sessions_of(entries)[id] == entries[i].session@,
{
    let i = choose|i: int| stands_at(entries, id, i);
    i
}

proof fn entry_is_added<H>(entries: Seq<Entry<H>>, entry: Entry<H>)
    requires
        unique(entries),
        !sessions_of(entries).contains_key(entry.session_id@),
    ensures
        unique(entries.push(entry)),
        sessions_of(entries.push(entry)) == sessions_of(entries).insert(
            entry.session_id@,
            entry.session@,
        ),
{
    let new = entries.push(entry);
    assert forall|i: int| 0 <= i < entries.len() implies (#[trigger] entries[i]).session_id@
        != entry.session_id@ by {
        entry_is_found(entries, i);
    }
    assert(unique(new));
    let expected = sessions_of(entries).insert(entry.session_id@, entry.session@);
    assert forall|id: Seq<char>| #[trigger]
        sessions_of(new).contains_key(id) <==> expected.contains_key(id) by {
        if sessions_of(new).contains_key(id) {
            let i = found_is_entry(new, id);
            if i < entries.len() {
                assert(stands_at(entries, id, i));
            }
        }
        if expected.contains_key(id) {
            if id == entry.session_id@ {
                assert(stands_at(new, id, entries.len() as int));
            } else {
                let i = found_is_entry(entries, id);
                assert(stands_at(new, id, i));
            }
        }
    }
    assert forall|id: Seq<char>| sessions_of(new).contains_key(id) implies #[trigger] sessions_of(
        new,
    )[id] == expected[id] by {
        let i = found_is_entry(new, id);
        if i < entries.len() {
            entry_is_found(entries, i);
        }
    }
    assert(sessions_of(new) =~= expected);
}

proof fn entry_is_removed<H>(entries: Seq<Entry<H>>, at: int)
    requires
        unique(entries),
        0 <= at < entries.len(),
    ensures
        unique(entries.remove(at)),
        sessions_of(entries.remove(at)) == sessions_of(entries).remove(entries[at].session_id@),
{
    let new = entries.remove(at);
    assert forall|i: int| 0 <= i < new.len() implies #[trigger] new[i] == entries[if i < at {
        i
    } else {
        i + 1
    }] by {}
    assert(unique(new));
    let expected = sessions_of(entries).remove(entries[at].session_id@);
    assert forall|id: Seq<char>| #[trigger]
        sessions_of(new).contains_key(id) <==> expected.contains_key(id) by {
        if sessions_of(new).contains_key(id) {
            let i = found_is_entry(new, id);
            entry_is_found(entries, if i < at {
                i
            } else {
                i + 1
            });
        }
        if expected.contains_key(id) {
            let i = found_is_entry(entries, id);
            assert(stands_at(new, id, if i < at {
                i
            } else {
                i - 1
            }));
        }
    }
    assert forall|id: Seq<char>| sessions_of(new).contains_key(id) implies #[trigger] sessions_of(
        new,
    )[id] == expected[id] by {
        let i = found_is_entry(new, id);
        entry_is_found(entries, if i < at {
            i
        } else {
            i + 1
        });
    }
    assert(sessions_of(new) =~= expected);
}

proof fn entry_is_replaced<H>(entries: Seq<Entry<H>>, at: int, entry: Entry<H>)
    requires
        unique(entries),
        0 <= at < entries.len(),
        entry.session_id@ == entries[at].session_id@,
    ensures
        unique(entries.update(at, entry)),
        sessions_of(entries.update(at, entry)) == sessions_of(entries).insert(
            entry.session_id@,
            entry.session@,
        ),
{
    let new = entries.update(at, entry);
    assert(unique(new));
    let expected = sessions_of(entries).insert(entry.session_id@, entry.session@);
    entry_is_found(entries, at);
    assert forall|id: Seq<char>| #[trigger]
        sessions_of(new).contains_key(id) <==> expected.contains_key(id) by {
        if sessions_of(new).contains_key(id) {
            let i = found_is_entry(new, id);
            assert(stands_at(entries, id, i));
        }
        if expected.contains_key(id) {
            let i = found_is_entry(entries, id);
            assert(stands_at(new, id, i));
        }
    }
    assert forall|id: Seq<char>| sessions_of(new).contains_key(id) implies #[trigger] sessions_of(
        new,
    )[id] == expected[id] by {
        let i = found_is_entry(new, id);
        if i != at {
            entry_is_found(entries, i);
        }
    }
    assert(sessions_of(new) =~= expected);
}

impl<H> View for PlaybackState<H> {
    type V = Map<Seq<char>, SessionView<H>>;

    closed spec fn view(&self) -> Map<Seq<char>, SessionView<H>> {
        sessions_of(self.entries@)
    }
}

impl<H> PlaybackState<H> {
    /// Whether no two sessions share a name.
    #[verifier::type_invariant]
    spec fn wf(&self) -> bool {
        unique(self.entries@)
    }

    /// Where a session stands.
    fn position(&self, session_id: &str) -> (position: Option<usize>)
        ensures
            match position {
                Some(i) => stands_at(self.entries@, session_id@, i as int),
                None => !self@.contains_key(session_id@),
            },
    {
        proof {
            use_type_invariant(self);
        }
        let mut i: usize = 0;
        while i < self.entries.len()
            invariant
                i <= self.entries@.len(),
                forall|k: int|
                    0 <= k < i ==> (#[trigger] self.entries@[k]).session_id@ != session_id@,
            decreases self.entries.len() - i,
        {
            if same_text(self.entries[i].session_id.as_str(), session_id) {
                return Some(i);
            }
            i = i + 1;
        }
        proof {
            if self@.contains_key(session_id@) {
                let k = found_is_entry(self.entries@, session_id@);
            }
        }
        None
    }

    /// Opens a session. One of the same name is replaced.
    pub fn insert(&mut self, session_id: String, session: PlaybackSession<H>)
        ensures
            final(self)@ == old(self)@.insert(session_id@, session@),
    {
        proof {
            use_type_invariant(&*self);
        }
        let position = self.position(session_id.as_str());
        let mut entries: Vec<Entry<H>> = Vec::new();
        std::mem::swap(&mut self.entries, &mut entries);
        let entry = Entry { session_id, session };
        match position {
            Some(i) => {
                proof {
                    entry_is_replaced(entries@, i as int, entry);
                }
                entries.set(i, entry);
            },
            None => {
                proof {
                    entry_is_added(entries@, entry);
                }
                entries.push(entry);
            },
        }
        self.entries = entries;
    }

    /// Closes a session, and says whether it was open.
    pub fn remove(&mut self, session_id: &str) -> (removed: bool)
        ensures
            removed == old(self)@.contains_key(session_id@),
            final(self)@ == old(self)@.remove(session_id@),
    {
        proof {
            use_type_invariant(&*self);
        }
        match self.position(session_id) {
            Some(i) => {
                let mut entries: Vec<Entry<H>> = Vec::new();
                std::mem::swap(&mut self.entries, &mut entries);
                proof {
                    entry_is_found(entries@, i as int);
                    entry_is_removed(entries@, i as int);
                }
                let _ = entries.remove(i);
                self.entries = entries;
                true
            },
            None => {
                assert(self@.remove(session_id@) =~= self@);
                false
            },
        }
    }

    /// The session of the given name, which is thereby used.
    pub fn session(&mut self, session_id: &str, now: u128) -> (session: Option<
        &PlaybackSession<H>,
    >)
        ensures
            match session {
                Some(session) => {
                    &&& old(self)@.contains_key(session_id@)
                    &&& session@ == used(old(self)@[session_id@], now)
                    &&& final(self)@ == old(self)@.insert(session_id@, session@)
                },
                None => {
                    &&& !old(self)@.contains_key(session_id@)
                    &&& final(self)@ == old(self)@
                },
            },
    {
        proof {
            use_type_invariant(&*self);
        }
        match self.position(session_id) {
            Some(i) => {
                let mut entries: Vec<Entry<H>> = Vec::new();
                std::mem::swap(&mut self.entries, &mut entries);
                let ghost before = entries@;
                entries[i].session.last_access = now;
                proof {
                    entry_is_found(before, i as int);
                    assert(entries@ =~= before.update(i as int, entries@[i as int]));
                    entry_is_replaced(before, i as int, entries@[i as int]);
                }
                self.entries = entries;
                Some(&self.entries[i].session)
            },
            None => None,
        }
    }

    /// Closes the sessions that have been idle for too long.
    pub fn cleanup_idle_sessions(&mut self, now: u128)
        ensures
            final(self)@ == alive_sessions(old(self)@, now),
    {
        proof {
            use_type_invariant(&*self);
        }
        let mut entries: Vec<Entry<H>> = Vec::new();
        std::mem::swap(&mut self.entries, &mut entries);
        let ghost sessions = sessions_of(entries@);
        let mut i: usize = 0;
        while i < entries.len()
            invariant
                i <= entries@.len(),
                unique(entries@),
                forall|id: Seq<char>| #[trigger]
                    sessions_of(entries@).contains_key(id) ==> sessions.contains_key(id)
                        && sessions_of(entries@)[id] == sessions[id],
                forall|id: Seq<char>| #[trigger]
                    sessions.contains_key(id) && is_alive(sessions[id], now) ==> sessions_of(
                        entries@,
                    ).contains_key(id),
                forall|k: int| 0 <= k < i ==> is_alive((#[trigger] entries@[k]).session@, now),
            decreases entries.len() - i,
        {
            let last_access: u128 = entries[i].session.last_access;
            let idle: u128 = if now > last_access {
                now - last_access
            } else {
                0
            };
            proof {
                entry_is_found(entries@, i as int);
            }
            if idle < SESSION_IDLE_TTL {
                i = i + 1;
            } else {
                proof {
                    entry_is_removed(entries@, i as int);
                }
                let _ = entries.remove(i);
            }
        }
        proof {
            assert forall|id: Seq<char>| #[trigger]
                sessions_of(entries@).contains_key(id) <==> alive_sessions(
                    sessions,
                    now,
                ).contains_key(id) by {
                if sessions_of(entries@).contains_key(id) {
                    let k = found_is_entry(entries@, id);
                    assert(is_alive(entries@[k].session@, now));
                }
                if alive_sessions(sessions, now).contains_key(id) {
                    assert(sessions.contains_key(id) && is_alive(sessions[id], now));
                }
            }
            assert(sessions_of(entries@) =~= alive_sessions(sessions, now));
        }
        self.entries = entries;
    }
}

impl<H> Default for PlaybackState<H> {
    /// No session is open.
    fn default() -> (state: Self)
        ensures
            state@ == Map::<Seq<char>, SessionView<H>>::empty(),
    {
        let state = PlaybackState { entries: Vec::new() };
        assert(state@ =~= Map::<Seq<char>, SessionView<H>>::empty());
        state
    }
}

/// A session is closed once five minutes have gone by since it was last used, not earlier, and
/// what is left of it until then is unchanged. Nothing is opened thereby.
pub proof fn sessions_live_for_five_minutes<H>(
    sessions: Map<Seq<char>, SessionView<H>>,
    now: u128,
    session_id: Seq<char>,
)
    ensures
        ({
            let after = alive_sessions(sessions, now);
            &&& after.contains_key(session_id) ==> sessions.contains_key(session_id)
                && after[session_id] == sessions[session_id]
            &&& sessions.contains_key(session_id) && now - sessions[session_id].last_access < 5 * 60
                * 1_000_000_000 ==> after.contains_key(session_id)
            &&& sessions.contains_key(session_id) && now - sessions[session_id].last_access >= 5
                * 60 * 1_000_000_000 ==> !after.contains_key(session_id)
        }),
{
}

/// Using a session changes when it was last used, and nothing else of it.
pub proof fn use_changes_only_the_time<H>(session: SessionView<H>, now: u128)
    ensures
        used(session, now).last_access == now,
        used(session, now).video_id == session.video_id,
        used(session, now).original_size == session.original_size,
        used(session, now).handle == session.handle,
{
}

} // verus!
