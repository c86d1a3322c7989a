//! Sharing decoder sessions: one session per file, counted by its users.
//!
//! The decoder keeps state of its own that no two callers may touch at once,
//! and it must not open a file that it has open already. The registry holds,
//! for each path that is open, the handle of the decoder session and the
//! number of users that share it. It decides when the decoder is to open a
//! file and when to close it; whoever holds the registry makes the call.

use vstd::prelude::*;
use crate::error::XdrkError;
use crate::text::str_eq;

verus! {

/// The handle of a decoder session and the number of users that share it.
#[derive(Clone, Copy, Debug)]
pub struct XdrkIdxRc {
    idx: usize,
    rc: usize,
}

impl XdrkIdxRc {
    /// The handle of the session.
    pub closed spec fn spec_idx(&self) -> usize {
        self.idx
    }

    /// The number of users of the session.
    pub closed spec fn spec_rc(&self) -> usize {
        self.rc
    }

    /// A session with the handle `idx` and one user.
    pub fn new(idx: usize) -> (session: Self)
        ensures
            session.spec_idx() == idx,
            session.spec_rc() == 1,
    {
        XdrkIdxRc { idx, rc: 1 }
    }

    /// The handle of the session.
    pub fn idx(&self) -> (idx: usize)
        ensures
            idx == self.spec_idx(),
    {
        self.idx
    }

    /// The number of users of the session.
    pub fn rc(&self) -> (rc: usize)
        ensures
            rc == self.spec_rc(),
    {
        self.rc
    }

    /// Counts one more user.
    pub fn increment_rc(&mut self)
        requires
            old(self).spec_rc() < usize::MAX,
        ensures
            final(self).spec_rc() == old(self).spec_rc() + 1,
            final(self).spec_idx() == old(self).spec_idx(),
    {
        self.rc += 1;
    }

    /// Counts one user fewer. A session without users has none to give up.
    pub fn decrement_rc(&mut self)
        requires
            old(self).spec_rc() >= 1,
        ensures
            final(self).spec_rc() == old(self).spec_rc() - 1,
            final(self).spec_idx() == old(self).spec_idx(),
    {
        self.rc -= 1;
    }
}

/// The sessions that are open, by path: for each the decoder's handle and the
/// number of users.
pub type Sessions = Map<Seq<char>, (usize, usize)>;

/// The sessions after a user has asked for `path` and, where the path was not
/// open, the decoder has answered the request to open it with `reply`.
///
/// An open path gains a user. A path that was not open is open with one user
/// if the reply is a handle, a positive number; else nothing changes.
pub open spec fn after_load(sessions: Sessions, path: Seq<char>, reply: int) -> Sessions {
    if sessions.dom().contains(path) {
        sessions.insert(path, (sessions[path].0, (sessions[path].1 + 1) as usize))
    } else if reply > 0 {
        sessions.insert(path, (reply as usize, 1usize))
    } else {
        sessions
    }
}

/// The sessions after a user of `path` has let go of it: the path loses a
/// user, and with its last user its session. A path that is not open has no
/// user to lose.
pub open spec fn after_release(sessions: Sessions, path: Seq<char>) -> Sessions {
    if !sessions.dom().contains(path) {
        sessions
    } else if sessions[path].1 <= 1 {
        sessions.remove(path)
    } else {
        sessions.insert(path, (sessions[path].0, (sessions[path].1 - 1) as usize))
    }
}

/// Whether a load of `path` has the decoder open the file.
pub open spec fn load_opens(sessions: Sessions, path: Seq<char>) -> bool {
    !sessions.dom().contains(path)
}

/// Whether a release of `path` has the decoder close the file.
pub open spec fn release_closes(sessions: Sessions, path: Seq<char>) -> bool {
    sessions.dom().contains(path) && sessions[path].1 <= 1
}

/// Two loads of a path that was not open, followed by two releases, have the
/// decoder open the file at the first load and close it at the second
/// release, and at no other time; in the end the sessions are as they were.
pub proof fn lemma_two_loads_two_releases(sessions: Sessions, path: Seq<char>, reply: int)
    requires
        !sessions.dom().contains(path),
        0 < reply <= usize::MAX,
    ensures
        ({
            let first = after_load(sessions, path, reply);
            let second = after_load(first, path, reply);
            let third = after_release(second, path);
            let fourth = after_release(third, path);
            &&& load_opens(sessions, path)
            &&& !load_opens(first, path)
            &&& !release_closes(second, path)
            &&& release_closes(third, path)
            &&& third[path].0 == reply
            &&& fourth == sessions
        }),
{
    let first = after_load(sessions, path, reply);
    let second = after_load(first, path, reply);
    let third = after_release(second, path);
    let fourth = after_release(third, path);
    assert(fourth =~= sessions);
}

/// A load of one path leaves the session of every other path as it was, and
/// so does a release.
pub proof fn lemma_other_paths_untouched(
    sessions: Sessions,
    path: Seq<char>,
    reply: int,
    other: Seq<char>,
)
    requires
        other != path,
    ensures
        after_load(sessions, path, reply).dom().contains(other) == sessions.dom().contains(other),
        after_release(sessions, path).dom().contains(other) == sessions.dom().contains(other),
        sessions.dom().contains(other) ==> after_load(sessions, path, reply)[other]
            == sessions[other],
        sessions.dom().contains(other) ==> after_release(sessions, path)[other] == sessions[other],
        load_opens(after_load(sessions, path, reply), other) == load_opens(sessions, other),
        load_opens(after_release(sessions, path), other) == load_opens(sessions, other),
        release_closes(after_load(sessions, path, reply), other) == release_closes(sessions, other),
        release_closes(after_release(sessions, path), other) == release_closes(sessions, other),
{
}

/// What a user asks of the registry.
pub enum Event {
    /// A load of `path`; `reply` is what the decoder answers if it is asked
    /// to open the file.
    Load { path: Seq<char>, reply: int },
    /// A release of `path`.
    Release { path: Seq<char> },
}

/// A call into the decoder.
pub enum Call {
    /// The file at `path` is opened.
    Open { path: Seq<char> },
    /// The session `handle` of the file at `path` is closed.
    Close { path: Seq<char>, handle: usize },
}

impl Event {
    /// The path that the event is about.
    pub open spec fn path(self) -> Seq<char> {
        match self {
            Event::Load { path, .. } => path,
            Event::Release { path } => path,
        }
    }
}

/// The sessions after an event.
pub open spec fn after_event(sessions: Sessions, event: Event) -> Sessions {
    match event {
        Event::Load { path, reply } => after_load(sessions, path, reply),
        Event::Release { path } => after_release(sessions, path),
    }
}

/// The call into the decoder that an event leads to, if it leads to one.
pub open spec fn call_of(sessions: Sessions, event: Event) -> Option<Call> {
    match event {
        Event::Load { path, .. } => if load_opens(sessions, path) {
            Some(Call::Open { path })
        } else {
            None
        },
        Event::Release { path } => if release_closes(sessions, path) {
            Some(Call::Close { path, handle: sessions[path].0 })
        } else {
            None
        },
    }
}

/// The sessions after a series of events.
pub open spec fn after_events(sessions: Sessions, events: Seq<Event>) -> Sessions
    decreases events.len(),
{
    if events.len() == 0 {
        sessions
    } else {
        after_event(after_events(sessions, events.drop_last()), events.last())
    }
}

/// The events of a series that are about `path`, in their order.
pub open spec fn events_about(events: Seq<Event>, path: Seq<char>) -> Seq<Event>
    decreases events.len(),
{
    if events.len() == 0 {
        Seq::empty()
    } else if events.last().path() == path {
        events_about(events.drop_last(), path).push(events.last())
    } else {
        events_about(events.drop_last(), path)
    }
}

/// The calls into the decoder that the events about `path` in a series lead
/// to, in their order.
pub open spec fn calls_about(sessions: Sessions, events: Seq<Event>, path: Seq<char>) -> Seq<Call>
    decreases events.len(),
{
    if events.len() == 0 {
        Seq::empty()
    } else {
        let before = calls_about(sessions, events.drop_last(), path);
        if events.last().path() != path {
            before
        } else {
            match call_of(after_events(sessions, events.drop_last()), events.last()) {
                Some(call) => before.push(call),
                None => before,
            }
        }
    }
}

/// Whether `path` is open in both or in neither, with the same session.
pub open spec fn same_session(a: Sessions, b: Sessions, path: Seq<char>) -> bool {
    &&& a.dom().contains(path) == b.dom().contains(path)
    &&& a.dom().contains(path) ==> a[path] == b[path]
}

/// What becomes of a path, and which calls are made for it, depends on the
/// events about that path alone: those about other paths may come between
/// them in any number and order.
pub proof fn lemma_other_events_do_not_count(sessions: Sessions, events: Seq<Event>, path: Seq<char>)
    ensures
        same_session(
            after_events(sessions, events),
            after_events(sessions, events_about(events, path)),
            path,
        ),
        calls_about(sessions, events, path) == calls_about(
            sessions,
            events_about(events, path),
            path,
        ),
    decreases events.len(),
{
    if events.len() > 0 {
        let before = events.drop_last();
        let last = events.last();
        lemma_other_events_do_not_count(sessions, before, path);
        lemma_events_about_are_about(before, path);
        if last.path() == path {
            let own = events_about(before, path);
            assert(own.push(last).drop_last() =~= own);
            assert(events_about(own.push(last), path) =~= own.push(last)) by {
                lemma_events_about_are_about(events, path);
            }
        } else {
            lemma_other_paths_untouched(
                after_events(sessions, before),
                last.path(),
                match last {
                    Event::Load { reply, .. } => reply,
                    Event::Release { .. } => 0,
                },
                path,
            );
        }
    }
}

/// The events about a path are about that path, all of them.
pub proof fn lemma_events_about_are_about(events: Seq<Event>, path: Seq<char>)
    ensures
        events_about(events_about(events, path), path) == events_about(events, path),
    decreases events.len(),
{
    if events.len() > 0 {
        lemma_events_about_are_about(events.drop_last(), path);
        if events.last().path() == path {
            let own = events_about(events.drop_last(), path);
            assert(own.push(events.last()).drop_last() =~= own);
        }
    }
}

/// Two loads of a path that was not open and two releases of it have the
/// decoder open the file once and close it once, in that order, whatever is
/// asked about other paths before, between and after them.
pub proof fn lemma_open_once_close_once(
    sessions: Sessions,
    events: Seq<Event>,
    path: Seq<char>,
    first: int,
    second: int,
)
    requires
        !sessions.dom().contains(path),
        0 < first <= usize::MAX,
        events_about(events, path) == seq![
            Event::Load { path, reply: first },
            Event::Load { path, reply: second },
            Event::Release { path },
            Event::Release { path },
        ],
    ensures
        calls_about(sessions, events, path) == seq![
            Call::Open { path },
            Call::Close { path, handle: first as usize },
        ],
        !after_events(sessions, events).dom().contains(path),
{
    lemma_other_events_do_not_count(sessions, events, path);
    let e1 = Event::Load { path, reply: first };
    let e2 = Event::Load { path, reply: second };
    let e3 = Event::Release { path };
    let e4 = Event::Release { path };
    let own = events_about(events, path);
    let none = Seq::<Event>::empty();
    assert(own.drop_last() =~= seq![e1, e2, e3]);
    assert(seq![e1, e2, e3].drop_last() =~= seq![e1, e2]);
    assert(seq![e1, e2].drop_last() =~= seq![e1]);
    assert(seq![e1].drop_last() =~= none);
    let s1 = after_event(sessions, e1);
    let s2 = after_event(s1, e2);
    let s3 = after_event(s2, e3);
    let s4 = after_event(s3, e4);
    assert(after_events(sessions, none) == sessions);
    assert(after_events(sessions, seq![e1]) == s1);
    assert(after_events(sessions, seq![e1, e2]) == s2);
    assert(after_events(sessions, seq![e1, e2, e3]) == s3);
    assert(after_events(sessions, own) == s4);
    assert(calls_about(sessions, none, path) =~= Seq::<Call>::empty());
    assert(calls_about(sessions, seq![e1], path) =~= seq![Call::Open { path }]);
    assert(calls_about(sessions, seq![e1, e2], path) =~= seq![Call::Open { path }]);
    assert(calls_about(sessions, seq![e1, e2, e3], path) =~= seq![Call::Open { path }]);
    assert(calls_about(sessions, own, path) =~= seq![
        Call::Open { path },
        Call::Close { path, handle: first as usize },
    ]);
}

/// Whether `extension` is that of a file which the decoder reads: `drk` or
/// `xrk`, in lower case.
pub open spec fn accepted_extension(extension: Seq<char>) -> bool {
    extension == "drk"@ || extension == "xrk"@
}

/// Decides whether a path may be handed to the decoder: it must exist, be a
/// file and end in an accepted extension.
pub fn validate_path(exists: bool, is_file: bool, extension: &str) -> (r: Result<(), XdrkError>)
    ensures
        r is Ok <==> exists && is_file && accepted_extension(extension@),
        r is Err ==> r->Err_0 == XdrkError::InvalidInput,
{
    if exists && is_file && (str_eq(extension, "drk") || str_eq(extension, "xrk")) {
        Ok(())
    } else {
        Err(XdrkError::InvalidInput)
    }
}

/// A path that is open and its session.
struct Entry {
    path: String,
    session: XdrkIdxRc,
}

/// The sessions that are open, by path. No path is held twice, and every
/// session has a user.
pub struct Registry {
    entries: Vec<Entry>,
}

impl Registry {
    #[verifier::type_invariant]
    spec fn wf(&self) -> bool {
        &&& forall|i: int, j: int|
            0 <= i < j < self.entries@.len() ==> self.entries@[i].path@ != self.entries@[j].path@
        &&& forall|i: int| 0 <= i < self.entries@.len() ==> self.entries@[i].session.rc >= 1
    }

    /// The position at which `path` is held.
    spec fn slot(&self, path: Seq<char>) -> int {
        choose|i: int| 0 <= i < self.entries@.len() && self.entries@[i].path@ == path
    }

    /// The open sessions: for each path its handle and its number of users.
    pub closed spec fn view(&self) -> Sessions {
        Map::new(
            |path: Seq<char>|
                exists|i: int| 0 <= i < self.entries@.len() && self.entries@[i].path@ == path,
            |path: Seq<char>|
                (
                    self.entries@[self.slot(path)].session.idx,
                    self.entries@[self.slot(path)].session.rc,
                ),
        )
    }

    proof fn lemma_slot(&self, i: int)
        requires
            self.wf(),
            0 <= i < self.entries@.len(),
        ensures
            self.view().dom().contains(self.entries@[i].path@),
            self.slot(self.entries@[i].path@) == i,
            self.view()[self.entries@[i].path@] == (
                self.entries@[i].session.idx,
                self.entries@[i].session.rc,
            ),
    {
        let path = self.entries@[i].path@;
        let found = self.slot(path);
        assert(0 <= found < self.entries@.len() && self.entries@[found].path@ == path);
    }

    /// A registry without sessions.
    pub fn new() -> (registry: Self)
        ensures
            registry@ == Map::<Seq<char>, (usize, usize)>::empty(),
    {
        let registry = Registry { entries: Vec::new() };
        assert(registry@ =~= Map::<Seq<char>, (usize, usize)>::empty());
        registry
    }

    /// The number of paths that are open.
    pub fn len(&self) -> (len: usize)
        ensures
            len == self@.dom().len(),
            self@.dom().finite(),
    {
        proof {
            use_type_invariant(self);
            self.lemma_len(self.entries@.len() as int);
            assert(self@.dom() =~= Set::new(
                |path: Seq<char>|
                    exists|i: int| 0 <= i < self.entries@.len() && self.entries@[i].path@ == path,
            ));
        }
        self.entries.len()
    }

    proof fn lemma_len(&self, n: int)
        requires
            self.wf(),
            0 <= n <= self.entries@.len(),
        ensures
            Set::new(
                |path: Seq<char>| exists|i: int| 0 <= i < n && self.entries@[i].path@ == path,
            ).finite(),
            Set::new(
                |path: Seq<char>| exists|i: int| 0 <= i < n && self.entries@[i].path@ == path,
            ).len() == n,
        decreases n,
    {
        let held = Set::new(
            |path: Seq<char>| exists|i: int| 0 <= i < n && self.entries@[i].path@ == path,
        );
        if n == 0 {
            assert(held =~= Set::<Seq<char>>::empty());
        } else {
            self.lemma_len(n - 1);
            let before = Set::new(
                |path: Seq<char>| exists|i: int| 0 <= i < n - 1 && self.entries@[i].path@ == path,
            );
            let last = self.entries@[n - 1].path@;
            assert(held =~= before.insert(last)) by {
                assert forall|path: Seq<char>| held.contains(path) implies before.insert(
                    last,
                ).contains(path) by {
                    let i = choose|i: int| 0 <= i < n && self.entries@[i].path@ == path;
                    if i < n - 1 {
                        assert(before.contains(path));
                    }
                }
                assert forall|path: Seq<char>| before.insert(last).contains(
                    path,
                ) implies held.contains(path) by {
                    if path == last {
                        assert(self.entries@[n - 1].path@ == path);
                    } else {
                        let i = choose|i: int| 0 <= i < n - 1 && self.entries@[i].path@ == path;
                        assert(0 <= i < n && self.entries@[i].path@ == path);
                    }
                }
            }
            assert(!before.contains(last)) by {
                if before.contains(last) {
                    let i = choose|i: int| 0 <= i < n - 1 && self.entries@[i].path@ == last;
                    assert(self.entries@[i].path@ != self.entries@[n - 1].path@);
                }
            }
        }
    }

    fn find(&self, path: &str) -> (at: Option<usize>)
        ensures
            match at {
                Some(i) => {
                    &&& i < self.entries@.len()
                    &&& self.entries@[i as int].path@ == path@
                    &&& self@.dom().contains(path@)
                    &&& self@[path@] == (
                        self.entries@[i as int].session.idx,
                        self.entries@[i as int].session.rc,
                    )
                },
                None => !self@.dom().contains(path@),
            },
    {
        proof {
            use_type_invariant(self);
        }
        let mut i: usize = 0;
        while i < self.entries.len()
            invariant
                self.wf(),
                0 <= i <= self.entries@.len(),
                forall|j: int| 0 <= j < i ==> self.entries@[j].path@ != path@,
            decreases self.entries@.len() - i,
        {
            if str_eq(self.entries[i].path.as_str(), path) {
                proof {
                    self.lemma_slot(i as int);
                }
                return Some(i);
            }
            i += 1;
        }
        None
    }

    /// The session of `path`, if the path is open.
    pub fn session(&self, path: &str) -> (session: Option<XdrkIdxRc>)
        ensures
            session is Some <==> self@.dom().contains(path@),
            session is Some ==> self@[path@] == (session->0.spec_idx(), session->0.spec_rc()),
            session is Some ==> session->0.spec_rc() >= 1,
    {
        proof {
            use_type_invariant(self);
        }
        match self.find(path) {
            Some(i) => Some(self.entries[i].session),
            None => None,
        }
    }

    /// The entries of `after` are those of this registry but for the one at
    /// `i`, which has the same path and the session `session`.
    proof fn lemma_replaced(&self, after: Registry, i: int, session: XdrkIdxRc)
        requires
            self.wf(),
            0 <= i < self.entries@.len(),
            session.rc >= 1,
            after.entries@.len() == self.entries@.len(),
            forall|j: int|
                0 <= j < self.entries@.len() ==> after.entries@[j].path@ == self.entries@[j].path@,
            forall|j: int|
                0 <= j < self.entries@.len() && j != i ==> after.entries@[j].session
                    == self.entries@[j].session,
            after.entries@[i].session == session,
        ensures
            after.wf(),
            after@ == self@.insert(self.entries@[i].path@, (session.idx, session.rc)),
    {
        assert(after.wf());
        assert forall|p: Seq<char>| #[trigger] self@.dom().contains(p) implies after@.dom().contains(
            p,
        ) && after@[p] == (if p == self.entries@[i].path@ {
            (session.idx, session.rc)
        } else {
            self@[p]
        }) by {
            let j = self.slot(p);
            self.lemma_slot(j);
            after.lemma_slot(j);
        }
        assert forall|p: Seq<char>| #[trigger] after@.dom().contains(p) implies self@.dom().contains(
            p,
        ) by {
            let j = after.slot(p);
            after.lemma_slot(j);
            self.lemma_slot(j);
        }
        self.lemma_slot(i);
        assert(after@ =~= self@.insert(self.entries@[i].path@, (session.idx, session.rc)));
    }

    proof fn lemma_removed(&self, after: Registry, i: int)
        requires
            self.wf(),
            0 <= i < self.entries@.len(),
            after.entries@ == self.entries@.remove(i),
        ensures
            after.wf(),
            after@ == self@.remove(self.entries@[i].path@),
    {
        let path = self.entries@[i].path@;
        assert forall|a: int, b: int| 0 <= a < b < after.entries@.len() implies after.entries@[a].path@
            != after.entries@[b].path@ by {
            let x = if a < i { a } else { a + 1 };
            let y = if b < i { b } else { b + 1 };
            assert(self.entries@[x].path@ != self.entries@[y].path@);
        }
        assert forall|a: int| 0 <= a < after.entries@.len() implies after.entries@[a].session.rc
            >= 1 by {
            let x = if a < i { a } else { a + 1 };
            assert(after.entries@[a] == self.entries@[x]);
        }
        assert(after.wf());
        self.lemma_slot(i);
        assert forall|p: Seq<char>| #[trigger]
            self@.dom().contains(p) && p != path implies after@.dom().contains(p) && after@[p]
            == self@[p] by {
            let j = self.slot(p);
            self.lemma_slot(j);
            let k = if j < i { j } else { j - 1 };
            assert(after.entries@[k].path@ == p);
            after.lemma_slot(k);
        }
        assert forall|p: Seq<char>| #[trigger] after@.dom().contains(p) implies self@.dom().contains(
            p,
        ) && p != path by {
            let k = after.slot(p);
            after.lemma_slot(k);
            let j = if k < i { k } else { k + 1 };
            assert(self.entries@[j].path@ == p);
            self.lemma_slot(j);
        }
        assert(after@ =~= self@.remove(path));
    }

    proof fn lemma_pushed(&self, after: Registry, entry: Entry)
        requires
            self.wf(),
            !self@.dom().contains(entry.path@),
            entry.session.rc >= 1,
            after.entries@ == self.entries@.push(entry),
        ensures
            after.wf(),
            after@ == self@.insert(entry.path@, (entry.session.idx, entry.session.rc)),
    {
        let n = self.entries@.len() as int;
        assert forall|i: int, j: int| 0 <= i < j < after.entries@.len() implies after.entries@[i].path@
            != after.entries@[j].path@ by {
            if j == n {
                self.lemma_slot(i);
            }
        }
        assert(after.wf());
        after.lemma_slot(n);
        assert forall|p: Seq<char>| #[trigger] self@.dom().contains(p) implies after@.dom().contains(
            p,
        ) && after@[p] == self@[p] by {
            let j = self.slot(p);
            self.lemma_slot(j);
            after.lemma_slot(j);
        }
        assert forall|p: Seq<char>| #[trigger]
            after@.dom().contains(p) && p != entry.path@ implies self@.dom().contains(p) by {
            let j = after.slot(p);
            after.lemma_slot(j);
            assert(self.entries@[j].path@ == p);
        }
        assert(after@ =~= self@.insert(entry.path@, (entry.session.idx, entry.session.rc)));
    }

    /// Takes a share in the session of `path` if the path is open, and gives
    /// the handle of that session. If the path is not open nothing changes:
    /// the decoder has to open the file, and its reply is to be registered.
    pub fn acquire(&mut self, path: &str) -> (handle: Option<usize>)
        requires
            old(self)@.dom().contains(path@) ==> old(self)@[path@].1 < usize::MAX,
        ensures
            handle is Some <==> !load_opens(old(self)@, path@),
            handle is Some ==> handle->0 == old(self)@[path@].0,
            handle is Some ==> final(self)@ == after_load(old(self)@, path@, 0),
            handle is None ==> final(self)@ == old(self)@,
    {
        proof {
            use_type_invariant(&*self);
        }
        match self.find(path) {
            Some(i) => {
                let mut session = self.entries[i].session;
                session.increment_rc();
                let ghost before = *self;
                let entry = Entry { path: self.entries[i].path.clone(), session };
                let mut entries: Vec<Entry> = Vec::new();
                core::mem::swap(&mut self.entries, &mut entries);
                entries.set(i, entry);
                proof {
                    before.lemma_replaced(Registry { entries }, i as int, session);
                }
                core::mem::swap(&mut self.entries, &mut entries);
                Some(session.idx())
            },
            None => None,
        }
    }

    /// Takes up the decoder's reply to the request to open `path`, which must
    /// not be open yet. A positive reply is the handle of a new session with
    /// one user. Zero says that the file could not be parsed, a negative
    /// reply that it could not be opened; then nothing changes.
    pub fn register(&mut self, path: &str, reply: i32) -> (r: Result<usize, XdrkError>)
        requires
            load_opens(old(self)@, path@),
        ensures
            final(self)@ == after_load(old(self)@, path@, reply as int),
            reply > 0 ==> r == Ok::<usize, XdrkError>(reply as usize),
            reply == 0 ==> r == Err::<usize, XdrkError>(XdrkError::Unparseable),
            reply < 0 ==> r == Err::<usize, XdrkError>(XdrkError::DecoderOpenFailed),
    {
        proof {
            use_type_invariant(&*self);
        }
        if reply > 0 {
            let idx: usize = reply as usize;
            let ghost before = *self;
            let entry = Entry { path: path.to_owned(), session: XdrkIdxRc::new(idx) };
            let ghost pushed = entry;
            let mut entries: Vec<Entry> = Vec::new();
            core::mem::swap(&mut self.entries, &mut entries);
            entries.push(entry);
            proof {
                before.lemma_pushed(Registry { entries }, pushed);
            }
            core::mem::swap(&mut self.entries, &mut entries);
            Ok(idx)
        } else if reply == 0 {
            Err(XdrkError::Unparseable)
        } else {
            Err(XdrkError::DecoderOpenFailed)
        }
    }

    /// Drops the session of `path`, whatever the number of its users. The
    /// result is the handle of the session that was dropped, if the path was
    /// open.
    pub fn forget(&mut self, path: &str) -> (dropped: Option<usize>)
        ensures
            final(self)@ == old(self)@.remove(path@),
            dropped is Some <==> old(self)@.dom().contains(path@),
            dropped is Some ==> dropped->0 == old(self)@[path@].0,
    {
        proof {
            use_type_invariant(&*self);
        }
        let ghost before = *self;
        match self.find(path) {
            Some(i) => {
                let session = self.entries[i].session;
                let mut entries: Vec<Entry> = Vec::new();
                core::mem::swap(&mut self.entries, &mut entries);
                entries.remove(i);
                proof {
                    before.lemma_removed(Registry { entries }, i as int);
                }
                core::mem::swap(&mut self.entries, &mut entries);
                Some(session.idx())
            },
            None => {
                assert(self@ =~= before@.remove(path@));
                None
            },
        }
    }

    /// Gives up one share in the session of `path`, which must be open. If it
    /// was the last share the path is open no longer, and the result is the
    /// handle of the session that the decoder has to close.
    pub fn release(&mut self, path: &str) -> (close: Option<usize>)
        requires
            old(self)@.dom().contains(path@),
        ensures
            final(self)@ == after_release(old(self)@, path@),
            close is Some <==> release_closes(old(self)@, path@),
            close is Some ==> close->0 == old(self)@[path@].0,
    {
        proof {
            use_type_invariant(&*self);
        }
        let ghost before = *self;
        match self.find(path) {
            Some(i) => {
                let mut session = self.entries[i].session;
                if session.rc() <= 1 {
                    let mut entries: Vec<Entry> = Vec::new();
                    core::mem::swap(&mut self.entries, &mut entries);
                    entries.remove(i);
                    proof {
                        before.lemma_removed(Registry { entries }, i as int);
                    }
                    core::mem::swap(&mut self.entries, &mut entries);
                    Some(session.idx())
                } else {
                    session.decrement_rc();
                    let entry = Entry { path: self.entries[i].path.clone(), session };
                    let mut entries: Vec<Entry> = Vec::new();
                    core::mem::swap(&mut self.entries, &mut entries);
                    entries.set(i, entry);
                    proof {
                        before.lemma_replaced(Registry { entries }, i as int, session);
                    }
                    core::mem::swap(&mut self.entries, &mut entries);
                    None
                }
            },
            None => None,
        }
    }
}

} // verus!
