//! Client sessions: what a global session id stands for, and the table of them.

use std::marker::PhantomData;
use std::sync::Arc;

use dashmap::DashMap;
use vstd::prelude::*;

use crate::ids::{first_free, has_free, ring_distance};
use crate::session_table::{count, insert_if_vacant, items, lookup, new_table, take, table_contents};

verus! {

/// Where a client session lives: one session of one instance of a TA.
#[derive(Debug)]
pub struct SessionBinding {
    pub uuid: String,
    pub instance_id: u32,
    pub local_session_id: u32,
    pub socket_path: String,
    pub generation: u64,
}

/// The contents of a [`SessionBinding`].
pub struct BindingView {
    pub uuid: Seq<char>,
    pub instance_id: u32,
    pub local_session_id: u32,
    pub socket_path: Seq<char>,
    pub generation: u64,
}

impl View for SessionBinding {
    type V = BindingView;

    open spec fn view(&self) -> BindingView {
        BindingView {
            uuid: self.uuid@,
            instance_id: self.instance_id,
            local_session_id: self.local_session_id,
            socket_path: self.socket_path@,
            generation: self.generation,
        }
    }
}

impl Clone for SessionBinding {
    /// A binding with the same contents.
    fn clone(&self) -> (copy: SessionBinding)
        ensures
            copy == *self,
    {
        SessionBinding {
            uuid: self.uuid.clone(),
            instance_id: self.instance_id,
            local_session_id: self.local_session_id,
            socket_path: self.socket_path.clone(),
            generation: self.generation,
        }
    }
}

/// A binding with the same contents.
fn copy_of(binding: &SessionBinding) -> (copy: SessionBinding)
    ensures
        copy == *binding,
{
    binding.clone()
}

/// Whether a session still takes commands.
#[derive(Debug, Clone, Copy, PartialEq, Eq, Structural)]
pub enum SessionState {
    Open,
    Closing,
}

/// A session with its state. It starts open, and closes once and for all.
pub struct SessionEntry {
    binding: SessionBinding,
    state: SessionState,
}

/// The contents of a [`SessionEntry`].
pub struct SessionView {
    pub binding: BindingView,
    pub state: SessionState,
}

impl SessionView {
    /// The session after it began to close.
    pub open spec fn closed(self) -> SessionView {
        SessionView { state: SessionState::Closing, ..self }
    }
}

impl View for SessionEntry {
    type V = SessionView;

    open spec fn view(&self) -> SessionView {
        SessionView { binding: self.spec_binding()@, state: self.spec_state() }
    }
}

impl SessionEntry {
    /// The binding of the session, as the closures of `with_invoke` and
    /// `with_close` get it.
    pub closed spec fn spec_binding(&self) -> SessionBinding {
        self.binding
    }

    /// The state of the session.
    pub closed spec fn spec_state(&self) -> SessionState {
        self.state
    }

    /// An open session with the given binding.
    pub fn new(binding: SessionBinding) -> (entry: SessionEntry)
        ensures
            entry.spec_binding() == binding,
            entry@ == (SessionView { binding: binding@, state: SessionState::Open }),
    {
        SessionEntry { binding, state: SessionState::Open }
    }

    /// A copy of the session's binding.
    pub fn binding(&self) -> (binding: SessionBinding)
        ensures
            binding == self.spec_binding(),
    {
        self.binding.clone()
    }

    /// Runs `f` on the binding of an open session. `None`, without running
    /// `f`, where the session has begun to close.
    pub fn with_invoke<R, F>(&self, f: F) -> (result: Option<R>) where
        F: FnOnce(&SessionBinding) -> R,

        requires
            self@.state is Open ==> f.requires((&self.spec_binding(),)),
        ensures
            result is Some <==> self@.state is Open,
            result matches Some(r) ==> f.ensures((&self.spec_binding(),), r),
    {
        if self.state != SessionState::Open {
            return None;
        }
        Some(f(&self.binding))
    }

    /// Closes an open session and runs `f` on its binding. `None`, without
    /// running `f`, where the session has begun to close before.
    pub fn with_close<R, F>(&mut self, f: F) -> (result: Option<R>) where
        F: FnOnce(&SessionBinding) -> R,

        requires
            old(self)@.state is Open ==> f.requires((&old(self).spec_binding(),)),
        ensures
            result is Some <==> old(self)@.state is Open,
            result matches Some(r) ==> f.ensures((&old(self).spec_binding(),), r),
            final(self).spec_binding() == old(self).spec_binding(),
            final(self)@ == old(self)@.closed(),
    {
        if self.state != SessionState::Open {
            return None;
        }
        self.state = SessionState::Closing;
        Some(f(&self.binding))
    }
}

/// The contents of a [`VirtualSessionManager`].
pub struct SessionsView {
    pub sessions: Map<u32, SessionView>,
    pub next_session_id: u32,
    pub next_generation: u64,
}

/// The session belongs to this instance of this TA.
pub open spec fn belongs_to(session: SessionView, uuid: Seq<char>, instance_id: u32) -> bool {
    session.binding.uuid == uuid && session.binding.instance_id == instance_id
}

/// The number of ids that `bind` finds taken before it settles on `id`: the
/// nonzero ones passed on the way.
pub open spec fn taken_ids_passed(start: u32, id: u32) -> int {
    if ring_distance(start, 0) < ring_distance(start, id) {
        ring_distance(start, id) - 1
    } else {
        ring_distance(start, id)
    }
}

impl SessionsView {
    /// No id is zero, and there are finitely many sessions.
    pub open spec fn wf(self) -> bool {
        &&& self.sessions.dom().finite()
        &&& !self.sessions.contains_key(0)
    }

    /// There is a session under this id, and it takes commands.
    pub open spec fn is_open(self, id: u32) -> bool {
        self.sessions.contains_key(id) && self.sessions[id].state is Open
    }

    /// An id is left for one more session.
    pub open spec fn has_room(self) -> bool {
        has_free(self.sessions.dom())
    }

    /// `id` is the one that the next `bind` gives out.
    pub open spec fn is_next_id(self, id: u32) -> bool {
        first_free(self.sessions.dom(), self.next_session_id, id)
    }

    /// The generation that the next `bind` gives out: one is used up with each
    /// id that is tried.
    pub open spec fn next_bound_generation(self, id: u32) -> u64 {
        ((self.next_generation + taken_ids_passed(self.next_session_id, id))
            % 0x1_0000_0000_0000_0000) as u64
    }

    /// After a session was bound to `id`.
    pub open spec fn bound(self, binding: BindingView, id: u32) -> SessionsView {
        let generation = self.next_bound_generation(id);
        SessionsView {
            sessions: self.sessions.insert(
                id,
                SessionView {
                    binding: BindingView { generation, ..binding },
                    state: SessionState::Open,
                },
            ),
            next_session_id: id.wrapping_add(1),
            next_generation: generation.wrapping_add(1),
        }
    }

    /// After the session `id` was dropped.
    pub open spec fn unbound(self, id: u32) -> SessionsView {
        SessionsView { sessions: self.sessions.remove(id), ..self }
    }

    /// After the session `id` began to close.
    pub open spec fn closing(self, id: u32) -> SessionsView {
        SessionsView {
            sessions: self.sessions.insert(id, self.sessions[id].closed()),
            ..self
        }
    }

    /// After every session of an instance was dropped.
    pub open spec fn invalidated(self, uuid: Seq<char>, instance_id: u32) -> SessionsView {
        SessionsView {
            sessions: self.sessions.filter_keys(
                |id: u32| !belongs_to(self.sessions[id], uuid, instance_id),
            ),
            ..self
        }
    }
}

/// A session as the manager holds it. It borrows the manager, so the session
/// can neither close nor go while it is looked at.
pub struct LiveSession<'a> {
    entry: Arc<SessionEntry>,
    manager: PhantomData<&'a VirtualSessionManager>,
}

impl<'a> View for LiveSession<'a> {
    type V = SessionView;

    open spec fn view(&self) -> SessionView {
        SessionView { binding: self.spec_binding()@, state: self.spec_state() }
    }
}

impl<'a> LiveSession<'a> {
    /// The binding of the session, as the closure of `with_invoke` gets it.
    pub closed spec fn spec_binding(&self) -> SessionBinding {
        self.entry.spec_binding()
    }

    /// The state of the session.
    pub closed spec fn spec_state(&self) -> SessionState {
        self.entry.spec_state()
    }

    /// A copy of the session's binding.
    pub fn binding(&self) -> (binding: SessionBinding)
        ensures
            binding == self.spec_binding(),
    {
        self.entry.binding()
    }

    /// Runs `f` on the binding of an open session. `None`, without running
    /// `f`, where the session has begun to close.
    pub fn with_invoke<R, F>(&self, f: F) -> (result: Option<R>) where
        F: FnOnce(&SessionBinding) -> R,

        requires
            self@.state is Open ==> f.requires((&self.spec_binding(),)),
        ensures
            result is Some <==> self@.state is Open,
            result matches Some(r) ==> f.ensures((&self.spec_binding(),), r),
    {
        self.entry.with_invoke(f)
    }
}

/// The client sessions of all TAs, each under a global id of its own.
pub struct VirtualSessionManager {
    mapping: DashMap<u32, Arc<SessionEntry>>,
    next_session_id: u32,
    next_generation: u64,
}

impl View for VirtualSessionManager {
    type V = SessionsView;

    closed spec fn view(&self) -> SessionsView {
        SessionsView {
            sessions: table_contents(self.mapping),
            next_session_id: self.next_session_id,
            next_generation: self.next_generation,
        }
    }
}

impl Default for VirtualSessionManager {
    /// A manager without sessions.
    fn default() -> (manager: VirtualSessionManager)
        ensures
            manager@.wf(),
            manager@ == (SessionsView {
                sessions: Map::empty(),
                next_session_id: 0,
                next_generation: 0,
            }),
    {
        VirtualSessionManager { mapping: new_table(), next_session_id: 0, next_generation: 0 }
    }
}

impl VirtualSessionManager {
    /// Whether an id is left for one more session.
    pub fn has_room(&self) -> (room: bool)
        requires
            self@.wf(),
        ensures
            room == self@.has_room(),
    {
        assert(self@.sessions.dom().remove(0) =~= self@.sessions.dom());
        let used: usize = count(&self.mapping);
        used < u32::MAX as usize
    }

    /// Enters an open session and returns its global id: the first one from
    /// the last given out that is neither zero nor in use. The generation in
    /// `binding` gives way to the next one of the manager's own.
    pub fn bind(&mut self, binding: SessionBinding) -> (id: u32)
        requires
            old(self)@.wf(),
            old(self)@.has_room(),
        ensures
            final(self)@.wf(),
            old(self)@.is_next_id(id),
            final(self)@ == old(self)@.bound(binding@, id),
    {
        let mut stamped: SessionBinding = binding;
        let ghost start = self.next_session_id;
        let ghost sessions = self@.sessions;
        let ghost free = crate::ids::lemma_free_exists(sessions.dom());
        loop
            invariant
                sessions == old(self)@.sessions,
                start == old(self)@.next_session_id,
                self@.sessions == sessions,
                old(self)@.wf(),
                free != 0,
                !sessions.contains_key(free),
                ring_distance(start, self.next_session_id) <= ring_distance(start, free),
                forall|other: u32|
                    other != 0 && #[trigger] ring_distance(start, other) < ring_distance(
                        start,
                        self.next_session_id,
                    ) ==> sessions.contains_key(other),
                self.next_generation == ((old(self)@.next_generation + taken_ids_passed(
                    start,
                    self.next_session_id,
                )) % 0x1_0000_0000_0000_0000) as u64,
                stamped@ == (BindingView { generation: stamped.generation, ..binding@ }),
            decreases ring_distance(start, free) - ring_distance(start, self.next_session_id),
        {
            let mut candidate: u32 = self.next_session_id;
            self.next_session_id = candidate.wrapping_add(1);
            if candidate == 0 {
                candidate = self.next_session_id;
                self.next_session_id = candidate.wrapping_add(1);
            }
            stamped.generation = self.next_generation;
            self.next_generation = self.next_generation.wrapping_add(1);
            let entry = Arc::new(SessionEntry::new(stamped.clone()));
            if insert_if_vacant(&mut self.mapping, candidate, entry) {
                return candidate;
            }
        }
    }

    /// The session under a global id.
    pub fn get(&self, global_session_id: u32) -> (found: Option<LiveSession<'_>>)
        ensures
            found is Some <==> self@.sessions.contains_key(global_session_id),
            found matches Some(session) ==> session@ == self@.sessions[global_session_id],
    {
        match lookup(&self.mapping, global_session_id) {
            Some(entry) => Some(LiveSession { entry, manager: PhantomData }),
            None => None,
        }
    }

    /// The binding on which a command of the session under a global id runs.
    /// `None` where there is no such session or it has begun to close.
    pub fn invoke_binding(&self, global_session_id: u32) -> (open: Option<SessionBinding>)
        ensures
            open is Some <==> self@.is_open(global_session_id),
            open matches Some(binding) ==> binding@ == self@.sessions[global_session_id].binding,
    {
        match lookup(&self.mapping, global_session_id) {
            Some(entry) => entry.with_invoke(copy_of),
            None => None,
        }
    }

    /// Closes the session under a global id, where it is open, and returns its
    /// binding. `None` where there is no such session or it has begun to
    /// close before.
    pub fn begin_close(&mut self, global_session_id: u32) -> (closed: Option<SessionBinding>)
        requires
            old(self)@.wf(),
        ensures
            final(self)@.wf(),
            closed is Some <==> old(self)@.is_open(global_session_id),
            closed matches Some(binding) ==> binding@
                == old(self)@.sessions[global_session_id].binding,
            final(self)@ == if closed is Some {
                old(self)@.closing(global_session_id)
            } else {
                old(self)@
            },
    {
        match take(&mut self.mapping, global_session_id) {
            None => {
                assert(self@.sessions =~= old(self)@.sessions);
                None
            },
            Some(held) => {
                let mut entry: SessionEntry = SessionEntry {
                    binding: held.binding(),
                    state: held.state,
                };
                let closed: Option<SessionBinding> = entry.with_close(copy_of);
                insert_if_vacant(&mut self.mapping, global_session_id, Arc::new(entry));
                assert(self@.sessions =~= if closed is Some {
                    old(self)@.closing(global_session_id).sessions
                } else {
                    old(self)@.sessions
                });
                closed
            },
        }
    }

    /// Drops the session under a global id, if there is one.
    pub fn unbind(&mut self, global_session_id: u32)
        requires
            old(self)@.wf(),
        ensures
            final(self)@.wf(),
            final(self)@ == old(self)@.unbound(global_session_id),
    {
        let _ = take(&mut self.mapping, global_session_id);
    }

    /// Drops every session of one instance of a TA, and no other.
    pub fn invalidate_instance(&mut self, uuid: &str, instance_id: u32)
        requires
            old(self)@.wf(),
        ensures
            final(self)@.wf(),
            final(self)@ == old(self)@.invalidated(uuid@, instance_id),
    {
        let wanted: String = uuid.to_owned();
        let all: Vec<(u32, Arc<SessionEntry>)> = items(&self.mapping);
        let ghost before = self@.sessions;
        let mut i: usize = 0;
        while i < all.len()
            invariant
                0 <= i <= all@.len(),
                wanted@ == uuid@,
                before == old(self)@.sessions,
                forall|k: int|
                    0 <= k < all@.len() ==> before.contains_key((#[trigger] all@[k]).0)
                        && all@[k].1@ == before[all@[k].0],
                forall|k: int, l: int|
                    0 <= k < l < all@.len() ==> (#[trigger] all@[k]).0 != (#[trigger] all@[l]).0,
                forall|id: u32| #[trigger]
                    self@.sessions.contains_key(id) <==> before.contains_key(id) && !exists|k: int|
                        0 <= k < i && (#[trigger] all@[k]).0 == id && belongs_to(
                            before[id],
                            uuid@,
                            instance_id,
                        ),
                forall|id: u32| #[trigger]
                    self@.sessions.contains_key(id) ==> self@.sessions[id] == before[id],
                self@.sessions.dom().finite(),
                self.next_session_id == old(self).next_session_id,
                self.next_generation == old(self).next_generation,
            decreases all.len() - i,
        {
            let entry: &SessionEntry = &all[i].1;
            if entry.binding.uuid == wanted && entry.binding.instance_id == instance_id {
                let _ = take(&mut self.mapping, all[i].0);
            }
            i = i + 1;
        }
        assert(self@.sessions =~= old(self)@.invalidated(uuid@, instance_id).sessions);
    }
}

} // verus!
