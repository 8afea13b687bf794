//! The TAs, their instances and the sessions that clients have with them.

use vstd::prelude::*;

use crate::instance::{is_list_of_gone, is_over, InstanceEntry, TaEntry, TaFlags, TaView};
use crate::locate::{candidates, first_file, spawn_plan, ta_candidates, SpawnPlan};
use crate::open::{
    AttemptView, EnsureTaError, OpenAction, OpenAttempt, OpenDecision, OpenEvent, OpenStep,
};
use crate::session::{
    belongs_to, BindingView, LiveSession, SessionBinding, SessionView, SessionsView,
    VirtualSessionManager,
};
use crate::text::{decimal, digits_value, is_u64_text, parse_u64, unsigned_digits};
use crate::uuid_map::UuidMap;

verus! {

broadcast use vstd::std_specs::hash::group_hash_axioms;

/// How long an instance may take to register, in milliseconds, unless it is
/// set otherwise.
pub const DEFAULT_REGISTER_TIMEOUT_MS: u64 = 3000;

/// The registry of all TAs. Callers that share one keep it behind a lock.
pub struct TaRegistry {
    ta_root: String,
    register_timeout_ms: u64,
    entries: UuidMap<TaEntry>,
    virtual_sessions: VirtualSessionManager,
}

/// The contents of a [`TaRegistry`].
pub struct RegistryView {
    pub ta_root: Seq<char>,
    pub register_timeout_ms: u64,
    pub tas: Map<Seq<char>, TaView>,
    pub sessions: SessionsView,
}

impl View for TaRegistry {
    type V = RegistryView;

    closed spec fn view(&self) -> RegistryView {
        RegistryView {
            ta_root: self.ta_root@,
            register_timeout_ms: self.register_timeout_ms,
            tas: self.entries@.map_values(|entry: TaEntry| entry@),
            sessions: self.virtual_sessions@,
        }
    }
}

impl RegistryView {
    /// A registry without TAs and sessions.
    pub open spec fn empty(ta_root: Seq<char>, register_timeout_ms: u64) -> RegistryView {
        RegistryView {
            ta_root,
            register_timeout_ms,
            tas: Map::empty(),
            sessions: SessionsView {
                sessions: Map::empty(),
                next_session_id: 0,
                next_generation: 0,
            },
        }
    }

    /// What is known of a TA.
    pub open spec fn ta(self, uuid: Seq<char>) -> TaView {
        if self.tas.contains_key(uuid) {
            self.tas[uuid]
        } else {
            TaView::unknown()
        }
    }

    /// With what is known of a TA replaced.
    pub open spec fn with_ta(self, uuid: Seq<char>, ta: TaView) -> RegistryView {
        RegistryView { tas: self.tas.insert(uuid, ta), ..self }
    }

    /// With what is known of a TA changed, where it is known at all.
    pub open spec fn with_known_ta(self, uuid: Seq<char>, ta: TaView) -> RegistryView {
        if self.tas.contains_key(uuid) {
            self.with_ta(uuid, ta)
        } else {
            self
        }
    }

    /// The session belongs to an instance of the TA that is over.
    pub open spec fn lost(self, session: SessionView, uuid: Seq<char>, exited: Seq<u32>) -> bool {
        let id = session.binding.instance_id;
        &&& session.binding.uuid == uuid
        &&& self.ta(uuid).instances.contains_key(id)
        &&& is_over(self.ta(uuid).instances[id], id, exited)
    }

    /// After the instances of a TA that are over were taken out, with their
    /// sessions.
    pub open spec fn reaped(self, uuid: Seq<char>, exited: Seq<u32>) -> RegistryView {
        RegistryView {
            sessions: SessionsView {
                sessions: self.sessions.sessions.filter_keys(
                    |id: u32| !self.lost(self.sessions.sessions[id], uuid, exited),
                ),
                ..self.sessions
            },
            ..self.with_ta(uuid, self.ta(uuid).reaped(exited))
        }
    }

    /// After an instance was found not to answer.
    pub open spec fn instance_lost(self, uuid: Seq<char>, instance_id: u32) -> RegistryView {
        RegistryView {
            sessions: self.sessions.invalidated(uuid, instance_id),
            ..self.with_known_ta(uuid, self.ta(uuid).killed(instance_id))
        }
    }

    /// After a session was bound to a global id.
    pub open spec fn session_bound(self, binding: BindingView, id: u32) -> RegistryView {
        RegistryView {
            sessions: self.sessions.bound(binding, id),
            ..self.with_known_ta(
                binding.uuid,
                self.ta(binding.uuid).session_added(binding.instance_id),
            )
        }
    }

    /// After a new instance could not be started: it is taken out again, and
    /// so is the TA where nothing else is known of it.
    pub open spec fn rolled_back(self, uuid: Seq<char>, instance_id: u32) -> RegistryView {
        let ta = self.ta(uuid).without_instance(instance_id);
        if !self.tas.contains_key(uuid) {
            self
        } else if ta.instances.is_empty() && ta.flags is None {
            RegistryView { tas: self.tas.remove(uuid), ..self }
        } else {
            self.with_ta(uuid, ta)
        }
    }
}

impl RegistryView {
    /// The time within which an instance has to register.
    pub open spec fn register_timeout_nanos(self) -> int {
        self.register_timeout_ms * 1_000_000
    }

    /// An attempt can have its turn: a number is left for a new instance, or is
    /// so once the instances that are over are taken out, or none is needed.
    pub open spec fn can_take_turn(self, attempt: AttemptView, exited: Seq<u32>) -> bool {
        ||| self.ta(attempt.uuid).has_room()
        ||| self.ta(attempt.uuid).reaped(exited).can_decide(attempt.awaiting)
    }

    /// What an attempt does on its turn: the instances that are over are taken
    /// out, and the rest decides.
    pub open spec fn polled(
        self,
        attempt: AttemptView,
        exited: Seq<u32>,
        step: OpenStep,
        after: RegistryView,
        attempt_after: AttemptView,
    ) -> bool {
        let uuid = attempt.uuid;
        let before = self.reaped(uuid, exited);
        let ta = before.ta(uuid);
        let ta_after = after.ta(uuid);
        &&& is_list_of_gone(step.gone@, self.ta(uuid), exited)
        &&& after == before.with_ta(uuid, ta_after)
        &&& match step.action {
            OpenAction::Finish(Ok(route)) => {
                &&& ta.decides(uuid, attempt.awaiting, OpenDecision::Return(route), ta_after)
                &&& attempt_after == attempt
            },
            OpenAction::Spawn { instance_id } => {
                &&& ta.decides(
                    uuid,
                    attempt.awaiting,
                    OpenDecision::Spawn { instance_id },
                    ta_after,
                )
                &&& attempt_after == (AttemptView { awaiting: Some(instance_id), ..attempt })
            },
            OpenAction::ReadClock => {
                &&& ta.decides(uuid, attempt.awaiting, OpenDecision::Wait, ta_after)
                &&& attempt_after == attempt
            },
            _ => false,
        }
    }

    /// What an attempt that has to wait does at this time: give up when the
    /// time is over, go on when its instance has registered in the meantime,
    /// else sleep for the rest.
    pub open spec fn action_at(self, attempt: AttemptView, elapsed_nanos: u128) -> OpenAction {
        if elapsed_nanos >= self.register_timeout_nanos() {
            OpenAction::Finish(Err(EnsureTaError::RegisterTimeout))
        } else if self.ta(attempt.uuid).ready_for(attempt.awaiting) {
            OpenAction::Poll
        } else {
            OpenAction::Sleep { nanos: (self.register_timeout_nanos() - elapsed_nanos) as u128 }
        }
    }

    /// The step of an attempt is right after this event, and leaves the
    /// registry and the attempt as in `after` and `attempt_after`.
    pub open spec fn steps(
        self,
        attempt: AttemptView,
        event: OpenEvent,
        step: OpenStep,
        after: RegistryView,
        attempt_after: AttemptView,
    ) -> bool {
        match event {
            OpenEvent::Polled { exited } => self.polled(
                attempt,
                exited@,
                step,
                after,
                attempt_after,
            ),
            OpenEvent::Clock { elapsed_nanos } => {
                &&& step.action == self.action_at(attempt, elapsed_nanos)
                &&& step.gone@.len() == 0
                &&& after == self
                &&& attempt_after == attempt
            },
            OpenEvent::Woken { timed_out } => {
                &&& step.action == if timed_out {
                    OpenAction::Finish(Err(EnsureTaError::RegisterTimeout))
                } else {
                    OpenAction::Poll
                }
                &&& step.gone@.len() == 0
                &&& after == self
                &&& attempt_after == attempt
            },
            OpenEvent::Spawned { instance_id, pid } => {
                &&& step.action == OpenAction::Poll
                &&& step.gone@.len() == 0
                &&& after == self.with_ta(
                    attempt.uuid,
                    self.ta(attempt.uuid).spawned(instance_id, pid),
                )
                &&& attempt_after == attempt
            },
            OpenEvent::SpawnFailed { instance_id, error } => {
                &&& step.action == OpenAction::Finish(Err(error))
                &&& step.gone@.len() == 0
                &&& after == self.rolled_back(attempt.uuid, instance_id)
                &&& attempt_after == attempt
            },
        }
    }
}

/// Fewer instances leave no less room.
proof fn lemma_reaping_leaves_room(ta: TaView, exited: Seq<u32>)
    requires
        ta.instances.dom().finite(),
        ta.has_room(),
    ensures
        ta.reaped(exited).has_room(),
{
    vstd::set_lib::lemma_len_subset(
        ta.reaped(exited).instances.dom().remove(0),
        ta.instances.dom().remove(0),
    );
}

impl TaRegistry {
    /// Every session has a nonzero id, and no TA is entered twice.
    pub closed spec fn wf(self) -> bool {
        self.entries.wf() && self.virtual_sessions@.wf()
    }

    /// A registry without TAs and sessions.
    pub fn new(ta_root: String, register_timeout_ms: u64) -> (registry: TaRegistry)
        ensures
            registry.wf(),
            registry@ == RegistryView::empty(ta_root@, register_timeout_ms),
    {
        let registry = TaRegistry {
            ta_root,
            register_timeout_ms,
            entries: UuidMap::new(),
            virtual_sessions: VirtualSessionManager::default(),
        };
        assert(registry@.tas =~= Map::empty());
        registry
    }

    /// A registry from the settings in the environment, each of them with a
    /// default for where it is missing. A timeout that is not a number counts
    /// as missing.
    pub fn from_env(ta_root: Option<String>, timeout_ms: Option<String>) -> (registry: TaRegistry)
        ensures
            registry.wf(),
            registry@ == RegistryView::empty(
                match ta_root {
                    Some(root) => root@,
                    None => "/tee/ta"@,
                },
                match timeout_ms {
                    Some(text) => if is_u64_text(text@) {
                        digits_value(unsigned_digits(text@)) as u64
                    } else {
                        DEFAULT_REGISTER_TIMEOUT_MS
                    },
                    None => DEFAULT_REGISTER_TIMEOUT_MS,
                },
            ),
    {
        let root: String = match ta_root {
            Some(root) => root,
            None => "/tee/ta".to_owned(),
        };
        let parsed: Option<u64> = match timeout_ms {
            Some(text) => parse_u64(text.as_str()),
            None => None,
        };
        let timeout: u64 = match parsed {
            Some(ms) => ms,
            None => DEFAULT_REGISTER_TIMEOUT_MS,
        };
        TaRegistry::new(root, timeout)
    }

    /// Takes what is known of a TA out, to be changed and entered again.
    fn take_ta(&mut self, uuid: &str) -> (entry: TaEntry)
        requires
            old(self).wf(),
        ensures
            final(self).wf(),
            entry@ == old(self)@.ta(uuid@),
            final(self)@ == (RegistryView { tas: old(self)@.tas.remove(uuid@), ..old(self)@ }),
    {
        let taken: Option<TaEntry> = self.entries.take(uuid);
        assert(self@.tas =~= old(self)@.tas.remove(uuid@));
        match taken {
            Some(entry) => entry,
            None => TaEntry::default(),
        }
    }

    /// Enters what is known of a TA again.
    fn put_ta(&mut self, uuid: &str, entry: TaEntry)
        requires
            old(self).wf(),
            !old(self)@.tas.contains_key(uuid@),
        ensures
            final(self).wf(),
            final(self)@ == old(self)@.with_ta(uuid@, entry@),
    {
        self.entries.put(uuid, entry);
        assert(self@.tas =~= old(self)@.tas.insert(uuid@, entry@));
    }

    /// Whether anything is known of a TA.
    fn knows_ta(&self, uuid: &str) -> (known: bool)
        requires
            self.wf(),
        ensures
            known == self@.tas.contains_key(uuid@),
    {
        self.entries.get(uuid).is_some()
    }

    /// An instance of a TA, as it stands now.
    pub fn instance(&self, uuid: &str, instance_id: u32) -> (found: Option<&InstanceEntry>)
        requires
            self.wf(),
        ensures
            found is Some <==> self@.ta(uuid@).instances.contains_key(instance_id),
            found matches Some(instance) ==> instance@ == self@.ta(uuid@).instances[instance_id],
    {
        match self.entries.get(uuid) {
            Some(entry) => entry.instances.get(&instance_id),
            None => None,
        }
    }

    /// Whether a number is left for one more instance of a TA.
    pub fn has_instance_room(&self, uuid: &str) -> (room: bool)
        requires
            self.wf(),
        ensures
            room == self@.ta(uuid@).has_room(),
    {
        match self.entries.get(uuid) {
            Some(entry) => entry.has_room(),
            None => {
                assert(TaView::unknown().instances.dom().remove(0) =~= Set::empty());
                true
            },
        }
    }

    /// Whether an attempt can be decided on as things stand: a number is left
    /// for a new instance, or none is needed.
    pub fn can_decide(&self, attempt: &OpenAttempt) -> (can: bool)
        requires
            self.wf(),
        ensures
            can == self@.ta(attempt@.uuid).can_decide(attempt@.awaiting),
    {
        match self.entries.get(attempt.uuid.as_str()) {
            Some(entry) => entry.can_decide(attempt.awaiting),
            None => {
                assert(TaView::unknown().instances.dom().remove(0) =~= Set::empty());
                true
            },
        }
    }

    /// Whether an id is left for one more session.
    pub fn has_session_room(&self) -> (room: bool)
        requires
            self.wf(),
        ensures
            room == self@.sessions.has_room(),
    {
        self.virtual_sessions.has_room()
    }

    /// Takes out an instance that could not be started.
    pub fn rollback_failed_spawn(&mut self, uuid: &str, instance_id: u32)
        requires
            old(self).wf(),
        ensures
            final(self).wf(),
            final(self)@ == old(self)@.rolled_back(uuid@, instance_id),
    {
        if self.knows_ta(uuid) {
            let mut entry: TaEntry = self.take_ta(uuid);
            let ghost before = entry@;
            entry.instances.remove(&instance_id);
            assert(entry@.instances =~= before.without_instance(instance_id).instances);
            if !(entry.instances.is_empty() && entry.flags.is_none()) {
                self.put_ta(uuid, entry);
            }
            assert(self@.tas =~= old(self)@.rolled_back(uuid@, instance_id).tas);
        }
    }

    /// Enters the registration of an instance, known before or not. Where the
    /// TA has registered with other flags before, those stand, and are
    /// returned.
    pub fn mark_registered(
        &mut self,
        uuid: &str,
        instance_id: u32,
        socket_path: String,
        flags: TaFlags,
    ) -> (mismatch: Option<TaFlags>)
        requires
            old(self).wf(),
        ensures
            final(self).wf(),
            final(self)@ == old(self)@.with_ta(
                uuid@,
                old(self)@.ta(uuid@).registered(uuid@, instance_id, socket_path@, flags),
            ),
            mismatch == if old(self)@.ta(uuid@).flags is Some && old(self)@.ta(uuid@).flags != Some(
                flags,
            ) {
                old(self)@.ta(uuid@).flags
            } else {
                None
            },
    {
        let mut entry: TaEntry = self.take_ta(uuid);
        let mismatch: Option<TaFlags> = entry.register(uuid, instance_id, socket_path, flags);
        let ghost ta = entry@;
        self.put_ta(uuid, entry);
        assert(self@.tas =~= old(self)@.with_ta(uuid@, ta).tas);
        mismatch
    }

    /// Declares an instance dead that does not answer, and drops its sessions.
    pub fn mark_instance_unavailable(&mut self, uuid: &str, instance_id: u32)
        requires
            old(self).wf(),
        ensures
            final(self).wf(),
            final(self)@ == old(self)@.instance_lost(uuid@, instance_id),
    {
        if self.knows_ta(uuid) {
            let mut entry: TaEntry = self.take_ta(uuid);
            entry.kill(instance_id);
            self.put_ta(uuid, entry);
        }
        assert(self@.tas =~= old(self)@.instance_lost(uuid@, instance_id).tas);
        self.virtual_sessions.invalidate_instance(uuid, instance_id);
        assert(self@.tas =~= old(self)@.instance_lost(uuid@, instance_id).tas);
    }

    /// Enters a session that an instance has opened, counts it there, and
    /// returns its global id.
    pub fn bind_session(
        &mut self,
        uuid: &str,
        instance_id: u32,
        socket_path: String,
        local_session_id: u32,
    ) -> (bound: Result<u32, EnsureTaError>)
        requires
            old(self).wf(),
            old(self)@.sessions.has_room(),
        ensures
            final(self).wf(),
            bound matches Ok(id) && old(self)@.sessions.is_next_id(id) && final(self)@ == old(
                self,
            )@.session_bound(
                BindingView {
                    uuid: uuid@,
                    instance_id,
                    local_session_id,
                    socket_path: socket_path@,
                    generation: 0,
                },
                id,
            ),
    {
        let binding = SessionBinding {
            uuid: uuid.to_owned(),
            instance_id,
            local_session_id,
            socket_path,
            generation: 0,
        };
        let ghost given = binding@;
        let id: u32 = self.virtual_sessions.bind(binding);
        if self.knows_ta(uuid) {
            let mut entry: TaEntry = self.take_ta(uuid);
            entry.add_session(instance_id);
            self.put_ta(uuid, entry);
        }
        assert(self@.tas =~= old(self)@.session_bound(given, id).tas);
        Ok(id)
    }

    /// The session under a global id.
    pub fn session_entry(&self, global_session_id: u32) -> (found: Option<LiveSession<'_>>)
        ensures
            found is Some <==> self@.sessions.sessions.contains_key(global_session_id),
            found matches Some(session) ==> session@ == self@.sessions.sessions[global_session_id],
    {
        self.virtual_sessions.get(global_session_id)
    }

    /// The binding on which a command of the session under a global id runs.
    /// `None` where there is no such session or it has begun to close.
    pub fn invoke_binding(&self, global_session_id: u32) -> (open: Option<SessionBinding>)
        ensures
            open is Some <==> self@.sessions.is_open(global_session_id),
            open matches Some(binding) ==> binding@
                == self@.sessions.sessions[global_session_id].binding,
    {
        self.virtual_sessions.invoke_binding(global_session_id)
    }

    /// Closes the session under a global id, where it is open, and returns its
    /// binding. `None` where there is no such session or it has begun to
    /// close before.
    pub fn begin_close(&mut self, global_session_id: u32) -> (closed: Option<SessionBinding>)
        requires
            old(self).wf(),
        ensures
            final(self).wf(),
            closed is Some <==> old(self)@.sessions.is_open(global_session_id),
            closed matches Some(binding) ==> binding@
                == old(self)@.sessions.sessions[global_session_id].binding,
            final(self)@ == if closed is Some {
                RegistryView {
                    sessions: old(self)@.sessions.closing(global_session_id),
                    ..old(self)@
                }
            } else {
                old(self)@
            },
    {
        self.virtual_sessions.begin_close(global_session_id)
    }

    /// Drops the session under a global id, if there is one.
    pub fn unbind_session(&mut self, global_session_id: u32)
        requires
            old(self).wf(),
        ensures
            final(self).wf(),
            final(self)@ == (RegistryView {
                sessions: old(self)@.sessions.unbound(global_session_id),
                ..old(self)@
            }),
    {
        self.virtual_sessions.unbind(global_session_id);
    }

    /// Counts a session that an instance has closed, and retires the instance
    /// where it has no more use. Returned is the process to end, if a retired
    /// instance has one.
    pub fn on_session_closed(&mut self, uuid: &str, instance_id: u32) -> (to_end: Option<u32>)
        requires
            old(self).wf(),
        ensures
            final(self).wf(),
            final(self)@ == old(self)@.with_known_ta(
                uuid@,
                old(self)@.ta(uuid@).session_closed(instance_id),
            ),
            to_end == old(self)@.ta(uuid@).process_to_end(instance_id),
            to_end is Some ==> final(self)@.ta(uuid@).instances[instance_id].state is Dead,
    {
        let mut to_end: Option<u32> = None;
        if self.knows_ta(uuid) {
            let mut entry: TaEntry = self.take_ta(uuid);
            to_end = entry.close_session(instance_id);
            self.put_ta(uuid, entry);
        }
        assert(self@.tas =~= old(self)@.with_known_ta(
            uuid@,
            old(self)@.ta(uuid@).session_closed(instance_id),
        ).tas);
        to_end
    }

    /// Takes out the instances of a TA that are over, with their sessions.
    /// `exited` names the instances whose process was found to have ended.
    /// Returned are the numbers of those taken out, each with the path of the
    /// socket that it leaves behind.
    pub fn reap_dead_instances(&mut self, uuid: &str, exited: &Vec<u32>) -> (gone: Vec<
        (u32, String),
    >)
        requires
            old(self).wf(),
        ensures
            final(self).wf(),
            final(self)@ == old(self)@.reaped(uuid@, exited@),
            is_list_of_gone(gone@, old(self)@.ta(uuid@), exited@),
    {
        let mut entry: TaEntry = self.take_ta(uuid);
        let gone: Vec<(u32, String)> = entry.reap(exited);
        self.put_ta(uuid, entry);
        let ghost before = old(self)@.sessions.sessions;
        let ghost ta = old(self)@.ta(uuid@);
        assert(self@.tas =~= old(self)@.reaped(uuid@, exited@).tas);
        let mut i: usize = 0;
        while i < gone.len()
            invariant
                0 <= i <= gone@.len(),
                self.wf(),
                before == old(self)@.sessions.sessions,
                ta == old(self)@.ta(uuid@),
                is_list_of_gone(gone@, ta, exited@),
                self@.ta_root == old(self)@.ta_root,
                self@.register_timeout_ms == old(self)@.register_timeout_ms,
                self@.tas == old(self)@.reaped(uuid@, exited@).tas,
                self@.sessions.next_session_id == old(self)@.sessions.next_session_id,
                self@.sessions.next_generation == old(self)@.sessions.next_generation,
                forall|id: u32| #[trigger]
                    self@.sessions.sessions.contains_key(id) <==> before.contains_key(id)
                        && !exists|k: int|
                        0 <= k < i && belongs_to(before[id], uuid@, (#[trigger] gone@[k]).0),
                forall|id: u32| #[trigger]
                    self@.sessions.sessions.contains_key(id) ==> self@.sessions.sessions[id]
                        == before[id],
            decreases gone.len() - i,
        {
            let ghost sessions = self@.sessions;
            let ghost tas = self@.tas;
            self.virtual_sessions.invalidate_instance(uuid, gone[i].0);
            assert(self@.tas == tas);
            assert forall|id: u32| #[trigger]
                self@.sessions.sessions.contains_key(id) <==> before.contains_key(id)
                    && !exists|k: int|
                    0 <= k < i + 1 && belongs_to(before[id], uuid@, (#[trigger] gone@[k]).0) by {
                let was_there = sessions.sessions.contains_key(id);
                let hit = belongs_to(before[id], uuid@, gone@[i as int].0);
                assert(self@.sessions.sessions.contains_key(id) <==> was_there && !hit);
            }
            i = i + 1;
        }
        assert(self@.sessions.sessions =~= old(self)@.reaped(
            uuid@,
            exited@,
        ).sessions.sessions);
        gone
    }

    /// Takes an attempt to get an instance one step further: what happened
    /// goes in, what to do next comes out. The attempt begins with its turn,
    /// and ends with the route to an instance or the reason why there is none.
    pub fn prepare_instance_for_open(&mut self, attempt: &mut OpenAttempt, event: OpenEvent) -> (
    step: OpenStep)
        requires
            old(self).wf(),
            event matches OpenEvent::Polled { exited } ==> old(self)@.can_take_turn(
                old(attempt)@,
                exited@,
            ),
        ensures
            final(self).wf(),
            old(self)@.steps(old(attempt)@, event, step, final(self)@, final(attempt)@),
    {
        match event {
            OpenEvent::Polled { exited } => {
                proof {
                    let ta = self@.ta(attempt.uuid@);
                    if self.entries@.contains_key(attempt.uuid@) {
                        let entry = self.entries@[attempt.uuid@];
                        assert(ta.instances.dom() =~= entry.instances@.dom());
                    }
                    if ta.has_room() {
                        lemma_reaping_leaves_room(ta, exited@);
                    }
                }
                let gone: Vec<(u32, String)> = self.reap_dead_instances(
                    attempt.uuid.as_str(),
                    &exited,
                );
                let ghost before = self@;
                let mut entry: TaEntry = self.take_ta(attempt.uuid.as_str());
                let decision: OpenDecision = entry.decide_open(
                    attempt.uuid.as_str(),
                    attempt.awaiting,
                );
                let ghost ta_after = entry@;
                self.put_ta(attempt.uuid.as_str(), entry);
                assert(self@.tas =~= before.with_ta(attempt.uuid@, ta_after).tas);
                let action: OpenAction = match decision {
                    OpenDecision::Return(route) => OpenAction::Finish(Ok(route)),
                    OpenDecision::Spawn { instance_id } => {
                        attempt.awaiting = Some(instance_id);
                        OpenAction::Spawn { instance_id }
                    },
                    OpenDecision::Wait => OpenAction::ReadClock,
                };
                OpenStep { action, gone }
            },
            OpenEvent::Clock { elapsed_nanos } => {
                let limit: u128 = self.register_timeout_ms as u128 * 1_000_000;
                let action: OpenAction = if elapsed_nanos >= limit {
                    OpenAction::Finish(Err(EnsureTaError::RegisterTimeout))
                } else {
                    let ready: bool = match self.entries.get(attempt.uuid.as_str()) {
                        Some(entry) => entry.already_ready(attempt.awaiting),
                        None => false,
                    };
                    if ready {
                        OpenAction::Poll
                    } else {
                        OpenAction::Sleep { nanos: limit - elapsed_nanos }
                    }
                };
                OpenStep { action, gone: Vec::new() }
            },
            OpenEvent::Woken { timed_out } => {
                let action: OpenAction = if timed_out {
                    OpenAction::Finish(Err(EnsureTaError::RegisterTimeout))
                } else {
                    OpenAction::Poll
                };
                OpenStep { action, gone: Vec::new() }
            },
            OpenEvent::Spawned { instance_id, pid } => {
                let mut entry: TaEntry = self.take_ta(attempt.uuid.as_str());
                entry.attach(instance_id, pid);
                let ghost ta = entry@;
                self.put_ta(attempt.uuid.as_str(), entry);
                assert(self@.tas =~= old(self)@.with_ta(attempt.uuid@, ta).tas);
                OpenStep { action: OpenAction::Poll, gone: Vec::new() }
            },
            OpenEvent::SpawnFailed { instance_id, error } => {
                self.rollback_failed_spawn(attempt.uuid.as_str(), instance_id);
                OpenStep { action: OpenAction::Finish(Err(error)), gone: Vec::new() }
            },
        }
    }

    /// The places where the executable of a TA is looked for.
    pub fn ta_candidates(&self, uuid: &str) -> (paths: Vec<String>)
        ensures
            paths@.len() == 3,
            forall|i: int|
                0 <= i < 3 ==> (#[trigger] paths@[i])@ == candidates(self@.ta_root, uuid@)[i],
    {
        ta_candidates(self.ta_root.as_str(), uuid)
    }

    /// How the process of an instance is started. `is_file` says of each
    /// candidate for its executable whether it is a file.
    pub fn spawn_ta(&self, uuid: &str, instance_id: u32, is_file: [bool; 3]) -> (plan: Result<
        SpawnPlan,
        EnsureTaError,
    >)
        ensures
            match first_file(is_file@) {
                Some(i) => plan matches Ok(p) && p.program@ == candidates(self@.ta_root, uuid@)[i]
                    && p.variable@ == "XTEE_TA_INSTANCE_ID"@ && p.value@ == decimal(
                    instance_id as nat,
                ),
                None => plan == Err::<SpawnPlan, EnsureTaError>(EnsureTaError::NotFound),
            },
            plan is Ok <==> exists|i: int| 0 <= i < 3 && #[trigger] is_file@[i],
            plan matches Err(e) ==> e == EnsureTaError::NotFound,
    {
        spawn_plan(self.ta_root.as_str(), uuid, instance_id, is_file)
    }
}

} // verus!
