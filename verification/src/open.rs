//! What to do when a client wants a session with a TA.

use vstd::prelude::*;

use crate::instance::{
    at_least_one, starting_instance, InstanceEntry, InstanceState, TaEntry, TaView,
};

verus! {

broadcast use vstd::std_specs::hash::group_hash_axioms;

/// Why no instance of a TA could be had.
#[derive(Debug, Clone, Copy, PartialEq, Eq, Structural)]
pub enum EnsureTaError {
    NotFound,
    SpawnFailed,
    RegisterTimeout,
    Internal,
}

/// The instance that a session is to be opened on.
#[derive(Debug)]
pub struct InstanceRoute {
    pub uuid: String,
    pub instance_id: u32,
    pub socket_path: String,
}

impl Clone for InstanceRoute {
    /// A route with the same contents.
    fn clone(&self) -> (copy: InstanceRoute)
        ensures
            copy == *self,
    {
        InstanceRoute {
            uuid: self.uuid.clone(),
            instance_id: self.instance_id,
            socket_path: self.socket_path.clone(),
        }
    }
}

/// What comes next on the way to an instance: it is there, or a new one has to
/// be started, or one that was started has yet to register.
#[derive(Debug)]
pub enum OpenDecision {
    Return(InstanceRoute),
    Spawn { instance_id: u32 },
    Wait,
}

/// One client's way to an instance of a TA: whose it is, and the instance that
/// was last started for it.
#[derive(Debug)]
pub struct OpenAttempt {
    pub uuid: String,
    pub awaiting: Option<u32>,
}

/// The contents of an [`OpenAttempt`].
pub struct AttemptView {
    pub uuid: Seq<char>,
    pub awaiting: Option<u32>,
}

impl View for OpenAttempt {
    type V = AttemptView;

    open spec fn view(&self) -> AttemptView {
        AttemptView { uuid: self.uuid@, awaiting: self.awaiting }
    }
}

impl OpenAttempt {
    /// An attempt for which no instance was started yet.
    pub fn new(uuid: &str) -> (attempt: OpenAttempt)
        ensures
            attempt@ == (AttemptView { uuid: uuid@, awaiting: None }),
    {
        OpenAttempt { uuid: uuid.to_owned(), awaiting: None }
    }
}

/// What happened to an attempt since its last step.
#[derive(Debug)]
pub enum OpenEvent {
    /// It has its turn. `exited` names the instances of the TA whose process
    /// was found to have ended.
    Polled { exited: Vec<u32> },
    /// The clock was read: the time since the attempt began.
    Clock { elapsed_nanos: u128 },
    /// It was woken, or its time was up.
    Woken { timed_out: bool },
    /// The process of a new instance was started.
    Spawned { instance_id: u32, pid: u32 },
    /// The process of a new instance could not be started.
    SpawnFailed { instance_id: u32, error: EnsureTaError },
}

/// What happened when the process of a new instance was to be started: it runs
/// under this pid, or it could not be started.
pub fn spawn_event(instance_id: u32, pid: Option<u32>) -> (event: OpenEvent)
    ensures
        event == match pid {
            Some(pid) => OpenEvent::Spawned { instance_id, pid },
            None => OpenEvent::SpawnFailed { instance_id, error: EnsureTaError::SpawnFailed },
        },
{
    match pid {
        Some(pid) => OpenEvent::Spawned { instance_id, pid },
        None => OpenEvent::SpawnFailed { instance_id, error: EnsureTaError::SpawnFailed },
    }
}

/// What to do for an attempt next.
#[derive(Debug)]
pub enum OpenAction {
    /// Give it its turn.
    Poll,
    /// Read the clock.
    ReadClock,
    /// Let it sleep until an instance registers or this time is up.
    Sleep { nanos: u128 },
    /// Start a process for this new instance.
    Spawn { instance_id: u32 },
    /// It is done.
    Finish(Result<InstanceRoute, EnsureTaError>),
}

/// What to do for an attempt next, and which instances were taken out on the
/// way, each with the path of the socket that it leaves behind.
#[derive(Debug)]
pub struct OpenStep {
    pub action: OpenAction,
    pub gone: Vec<(u32, String)>,
}

impl TaView {
    /// The session may be opened on this instance. Where the TA runs one
    /// process for each session, it must be the one that was started for this
    /// very session.
    pub open spec fn may_serve(self, awaiting: Option<u32>, instance_id: u32) -> bool {
        &&& self.instance_is(instance_id, InstanceState::Ready)
        &&& self.is_multi_instance() ==> awaiting == Some(instance_id)
    }

    /// The session may be opened on some instance.
    pub open spec fn can_serve(self, awaiting: Option<u32>) -> bool {
        if self.is_multi_instance() {
            awaiting matches Some(instance_id) && self.instance_is(
                instance_id,
                InstanceState::Ready,
            )
        } else {
            self.some_instance_is(InstanceState::Ready)
        }
    }

    /// No instance can serve yet, but one that is starting will.
    pub open spec fn must_wait(self, awaiting: Option<u32>) -> bool {
        if self.is_multi_instance() {
            awaiting matches Some(instance_id) && self.instance_is(
                instance_id,
                InstanceState::Starting,
            )
        } else {
            !self.some_instance_is(InstanceState::Ready) && self.some_instance_is(
                InstanceState::Starting,
            )
        }
    }

    /// A decision can be taken: a number is left for a new instance, or none is
    /// needed.
    pub open spec fn can_decide(self, awaiting: Option<u32>) -> bool {
        self.has_room() || self.can_serve(awaiting) || self.must_wait(awaiting)
    }

    /// With a new instance in place, about to be started.
    pub open spec fn with_new_instance(self, uuid: Seq<char>, instance_id: u32) -> TaView {
        TaView {
            next_instance_id: at_least_one(instance_id.wrapping_add(1)),
            ..self.with_instance(instance_id, starting_instance(uuid, instance_id))
        }
    }

    /// The decision is right for a session that waits for the instance
    /// `awaiting`, and leaves the TA as in `after`.
    pub open spec fn decides(
        self,
        uuid: Seq<char>,
        awaiting: Option<u32>,
        decision: OpenDecision,
        after: TaView,
    ) -> bool {
        match decision {
            OpenDecision::Return(route) => {
                &&& self.can_serve(awaiting)
                &&& self.may_serve(awaiting, route.instance_id)
                &&& route.uuid@ == uuid
                &&& route.socket_path@ == self.instances[route.instance_id].socket_path
                &&& after == self
            },
            OpenDecision::Wait => self.must_wait(awaiting) && after == self,
            OpenDecision::Spawn { instance_id } => {
                &&& !self.can_serve(awaiting)
                &&& !self.must_wait(awaiting)
                &&& self.is_next_instance_id(instance_id)
                &&& after == self.with_new_instance(uuid, instance_id)
            },
        }
    }
}

impl TaEntry {
    /// The route to an instance that is there.
    fn route_to(&self, uuid: &str, instance_id: u32) -> (route: InstanceRoute)
        requires
            self@.instances.contains_key(instance_id),
        ensures
            route.uuid@ == uuid@,
            route.instance_id == instance_id,
            route.socket_path@ == self@.instances[instance_id].socket_path,
    {
        let socket_path: String = match self.instances.get(&instance_id) {
            Some(instance) => instance.socket_path.clone(),
            None => String::new(),
        };
        InstanceRoute { uuid: uuid.to_owned(), instance_id, socket_path }
    }

    /// Enters a new instance, about to be started.
    fn place_instance(&mut self, uuid: &str) -> (instance_id: u32)
        requires
            old(self)@.has_room(),
        ensures
            old(self)@.is_next_instance_id(instance_id),
            final(self)@ == old(self)@.with_new_instance(uuid@, instance_id),
    {
        let instance_id: u32 = self.allocate_instance_id();
        self.instances.insert(instance_id, InstanceEntry::new_starting(uuid, instance_id));
        assert(self@.instances =~= old(self)@.with_new_instance(uuid@, instance_id).instances);
        instance_id
    }

    /// The state of an instance, where it exists.
    pub fn state_of(&self, instance_id: u32) -> (state: Option<InstanceState>)
        ensures
            state is Some <==> self@.instances.contains_key(instance_id),
            state matches Some(s) ==> s == self@.instances[instance_id].state,
    {
        match self.instances.get(&instance_id) {
            Some(instance) => Some(instance.state),
            None => None,
        }
    }

    /// Whether a decision can be taken.
    pub fn can_decide(&self, awaiting: Option<u32>) -> (can: bool)
        ensures
            can == self@.can_decide(awaiting),
    {
        if self.has_room() {
            return true;
        }
        let multi_instance: bool = match self.flags {
            Some(flags) => !flags.is_single_instance,
            None => false,
        };
        if multi_instance {
            match awaiting {
                Some(instance_id) => match self.state_of(instance_id) {
                    Some(InstanceState::Ready) => true,
                    Some(InstanceState::Starting) => true,
                    _ => false,
                },
                None => false,
            }
        } else {
            self.find_in_state(InstanceState::Ready).is_some() || self.find_in_state(
                InstanceState::Starting,
            ).is_some()
        }
    }

    /// Decides how a session gets its instance, and enters the new one where
    /// one has to be started. `awaiting` is the instance that was started for
    /// this session before.
    pub fn decide_open(&mut self, uuid: &str, awaiting: Option<u32>) -> (decision: OpenDecision)
        requires
            old(self)@.can_decide(awaiting),
        ensures
            old(self)@.decides(uuid@, awaiting, decision, final(self)@),
            old(self)@.flags matches Some(flags) && !flags.is_single_instance && (
            awaiting matches Some(own) && old(self)@.instances.contains_key(own) && old(
                self,
            )@.instances[own].state is Starting) ==> decision is Wait,
    {
        let multi_instance: bool = match self.flags {
            Some(flags) => !flags.is_single_instance,
            None => false,
        };
        if multi_instance {
            if let Some(instance_id) = awaiting {
                match self.state_of(instance_id) {
                    Some(InstanceState::Ready) => {
                        return OpenDecision::Return(self.route_to(uuid, instance_id));
                    },
                    Some(InstanceState::Starting) => return OpenDecision::Wait,
                    _ => {},
                }
            }
        } else {
            if let Some(instance_id) = self.find_in_state(InstanceState::Ready) {
                return OpenDecision::Return(self.route_to(uuid, instance_id));
            }
            if self.find_in_state(InstanceState::Starting).is_some() {
                return OpenDecision::Wait;
            }
        }
        OpenDecision::Spawn { instance_id: self.place_instance(uuid) }
    }

    /// Whether a session that is about to wait has nothing to wait for: its
    /// instance, or any where it has none of its own, has registered.
    pub fn already_ready(&self, awaiting: Option<u32>) -> (ready: bool)
        ensures
            ready == self@.ready_for(awaiting),
    {
        match awaiting {
            Some(instance_id) => match self.state_of(instance_id) {
                Some(InstanceState::Ready) => true,
                _ => false,
            },
            None => self.find_in_state(InstanceState::Ready).is_some(),
        }
    }
}

impl TaView {
    /// The instance that a session waits for, or any where it has none of its
    /// own, is ready.
    pub open spec fn ready_for(self, awaiting: Option<u32>) -> bool {
        match awaiting {
            Some(instance_id) => self.instance_is(instance_id, InstanceState::Ready),
            None => self.some_instance_is(InstanceState::Ready),
        }
    }
}

} // verus!
