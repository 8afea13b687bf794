//! The running instances of one TA.

use std::collections::HashMap;

use vstd::prelude::*;

use crate::ids::{first_free, has_free, lemma_free_exists, ring_distance};
use crate::text::{decimal, decimal_text};

verus! {

broadcast use vstd::std_specs::hash::group_hash_axioms;

/// How a TA wants to be run, as it says when it registers.
#[derive(Debug, Clone, Copy, PartialEq, Eq, Structural)]
pub struct TaFlags {
    pub is_single_instance: bool,
    pub is_multi_session: bool,
    pub is_instance_keep_alive: bool,
}

/// How far an instance has come: started, registered, or gone.
#[derive(Debug, Clone, Copy, PartialEq, Eq, Structural)]
pub enum InstanceState {
    Starting,
    Ready,
    Dead,
}

/// One instance of a TA. Its process, if one was started for it, is known by
/// its pid.
#[derive(Debug)]
pub struct InstanceEntry {
    pub pid: Option<u32>,
    pub state: InstanceState,
    pub socket_path: String,
    pub active_sessions: u32,
}

/// The contents of an [`InstanceEntry`].
pub struct InstanceView {
    pub pid: Option<u32>,
    pub state: InstanceState,
    pub socket_path: Seq<char>,
    pub active_sessions: u32,
}

impl View for InstanceEntry {
    type V = InstanceView;

    open spec fn view(&self) -> InstanceView {
        InstanceView {
            pid: self.pid,
            state: self.state,
            socket_path: self.socket_path@,
            active_sessions: self.active_sessions,
        }
    }
}

/// The socket on which an instance listens unless it registers another.
pub open spec fn instance_socket(uuid: Seq<char>, instance_id: u32) -> Seq<char> {
    "/tmp/"@ + uuid + "."@ + decimal(instance_id as nat) + ".sock"@
}

/// An instance that was not started yet.
pub open spec fn starting_instance(uuid: Seq<char>, instance_id: u32) -> InstanceView {
    InstanceView {
        pid: None,
        state: InstanceState::Starting,
        socket_path: instance_socket(uuid, instance_id),
        active_sessions: 0,
    }
}

impl InstanceEntry {
    /// An instance that is about to be started.
    pub fn new_starting(uuid: &str, instance_id: u32) -> (entry: InstanceEntry)
        ensures
            entry@ == starting_instance(uuid@, instance_id),
    {
        let mut socket_path: String = "/tmp/".to_owned();
        socket_path.append(uuid);
        socket_path.append(".");
        let id: String = decimal_text(instance_id as u128);
        socket_path.append(id.as_str());
        socket_path.append(".sock");
        InstanceEntry {
            pid: None,
            state: InstanceState::Starting,
            socket_path,
            active_sessions: 0,
        }
    }
}

/// All that is known of one TA: its flags, once an instance has registered,
/// its instances, and the number to try for the next one.
pub struct TaEntry {
    pub flags: Option<TaFlags>,
    pub instances: HashMap<u32, InstanceEntry>,
    pub next_instance_id: u32,
}

/// The contents of a [`TaEntry`].
pub struct TaView {
    pub flags: Option<TaFlags>,
    pub instances: Map<u32, InstanceView>,
    pub next_instance_id: u32,
}

impl View for TaEntry {
    type V = TaView;

    open spec fn view(&self) -> TaView {
        TaView {
            flags: self.flags,
            instances: self.instances@.map_values(|instance: InstanceEntry| instance@),
            next_instance_id: self.next_instance_id,
        }
    }
}

/// A number from which ids are tried: never zero.
pub open spec fn at_least_one(n: u32) -> u32 {
    if n == 0 {
        1
    } else {
        n
    }
}

/// The instance is over: it was declared dead, or its process was found to
/// have ended.
pub open spec fn is_over(instance: InstanceView, instance_id: u32, exited: Seq<u32>) -> bool {
    instance.state is Dead || (instance.pid is Some && exited.contains(instance_id))
}

impl TaView {
    /// A TA of which nothing is known.
    pub open spec fn unknown() -> TaView {
        TaView { flags: None, instances: Map::empty(), next_instance_id: 1 }
    }

    /// The TA is known to run one process for each session that is opened.
    pub open spec fn is_multi_instance(self) -> bool {
        self.flags matches Some(flags) && !flags.is_single_instance
    }

    /// The instance exists and is in this state.
    pub open spec fn instance_is(self, instance_id: u32, state: InstanceState) -> bool {
        self.instances.contains_key(instance_id) && self.instances[instance_id].state == state
    }

    /// Some instance is in this state.
    pub open spec fn some_instance_is(self, state: InstanceState) -> bool {
        exists|instance_id: u32| #[trigger] self.instance_is(instance_id, state)
    }

    /// A number is left for one more instance.
    pub open spec fn has_room(self) -> bool {
        has_free(self.instances.dom())
    }

    /// `instance_id` is the number that the next instance gets.
    pub open spec fn is_next_instance_id(self, instance_id: u32) -> bool {
        first_free(self.instances.dom(), at_least_one(self.next_instance_id), instance_id)
    }

    /// After the instances that are over were taken out.
    pub open spec fn reaped(self, exited: Seq<u32>) -> TaView {
        TaView {
            instances: self.instances.filter_keys(
                |id: u32| !is_over(self.instances[id], id, exited),
            ),
            ..self
        }
    }

    /// With one instance entered or replaced.
    pub open spec fn with_instance(self, instance_id: u32, instance: InstanceView) -> TaView {
        TaView { instances: self.instances.insert(instance_id, instance), ..self }
    }

    /// With one instance changed, where it exists.
    pub open spec fn changed(
        self,
        instance_id: u32,
        change: spec_fn(InstanceView) -> InstanceView,
    ) -> TaView {
        if self.instances.contains_key(instance_id) {
            self.with_instance(instance_id, change(self.instances[instance_id]))
        } else {
            self
        }
    }

    /// Without one instance.
    pub open spec fn without_instance(self, instance_id: u32) -> TaView {
        TaView { instances: self.instances.remove(instance_id), ..self }
    }

    /// After the instance registered: it is ready, on the socket it named. The
    /// first registration settles the flags of the TA.
    pub open spec fn registered(
        self,
        uuid: Seq<char>,
        instance_id: u32,
        socket_path: Seq<char>,
        flags: TaFlags,
    ) -> TaView {
        let held = if self.instances.contains_key(instance_id) {
            self.instances[instance_id]
        } else {
            starting_instance(uuid, instance_id)
        };
        TaView {
            flags: if self.flags is Some {
                self.flags
            } else {
                Some(flags)
            },
            ..self.with_instance(
                instance_id,
                InstanceView { state: InstanceState::Ready, socket_path, ..held },
            )
        }
    }

    /// After the instance was declared dead.
    pub open spec fn killed(self, instance_id: u32) -> TaView {
        self.changed(
            instance_id,
            |instance: InstanceView| InstanceView { state: InstanceState::Dead, ..instance },
        )
    }

    /// After a process was started for the instance. One that has registered
    /// in the meantime stays ready.
    pub open spec fn spawned(self, instance_id: u32, pid: u32) -> TaView {
        self.changed(
            instance_id,
            |instance: InstanceView|
                InstanceView {
                    pid: Some(pid),
                    state: if instance.state is Ready {
                        InstanceState::Ready
                    } else {
                        InstanceState::Starting
                    },
                    ..instance
                },
        )
    }

    /// After a session was opened on the instance.
    pub open spec fn session_added(self, instance_id: u32) -> TaView {
        self.changed(instance_id, |instance: InstanceView| one_session_more(instance))
    }

    /// After a session of the instance was closed. Nothing changes before the
    /// flags of the TA are known.
    pub open spec fn session_closed(self, instance_id: u32) -> TaView {
        match self.flags {
            Some(flags) => self.changed(
                instance_id,
                |instance: InstanceView| after_close(instance, flags),
            ),
            None => self,
        }
    }

    /// The process that ends with the session closed on the instance: that of
    /// an instance that is retired.
    pub open spec fn process_to_end(self, instance_id: u32) -> Option<u32> {
        match self.flags {
            Some(flags) => if self.instances.contains_key(instance_id) && retires(
                flags,
                one_session_less(self.instances[instance_id]).active_sessions,
            ) {
                self.instances[instance_id].pid
            } else {
                None
            },
            None => None,
        }
    }
}

/// With one session more, as far as they can be counted.
pub open spec fn one_session_more(instance: InstanceView) -> InstanceView {
    InstanceView {
        active_sessions: if instance.active_sessions < u32::MAX {
            (instance.active_sessions + 1) as u32
        } else {
            u32::MAX
        },
        ..instance
    }
}

/// With one session less, where any is counted.
pub open spec fn one_session_less(instance: InstanceView) -> InstanceView {
    InstanceView {
        active_sessions: if instance.active_sessions > 0 {
            (instance.active_sessions - 1) as u32
        } else {
            0
        },
        ..instance
    }
}

/// An instance with this many sessions left has no more use: it served one
/// session only, or no session is left and it was not to be kept.
pub open spec fn retires(flags: TaFlags, sessions_left: u32) -> bool {
    !flags.is_single_instance || (!flags.is_instance_keep_alive && sessions_left == 0)
}

/// The instance after one of its sessions was closed.
pub open spec fn after_close(instance: InstanceView, flags: TaFlags) -> InstanceView {
    let left = one_session_less(instance);
    if retires(flags, left.active_sessions) {
        InstanceView { state: InstanceState::Dead, ..left }
    } else {
        left
    }
}

/// The list names exactly the instances that are over, each once, with its
/// socket.
pub open spec fn is_list_of_gone(gone: Seq<(u32, String)>, ta: TaView, exited: Seq<u32>) -> bool {
    &&& forall|i: int|
        0 <= i < gone.len() ==> ta.instances.contains_key((#[trigger] gone[i]).0) && is_over(
            ta.instances[gone[i].0],
            gone[i].0,
            exited,
        ) && gone[i].1@ == ta.instances[gone[i].0].socket_path
    &&& forall|id: u32| #[trigger]
        ta.instances.contains_key(id) && is_over(ta.instances[id], id, exited) ==> exists|i: int|
            0 <= i < gone.len() && (#[trigger] gone[i]).0 == id
    &&& forall|i: int, j: int|
        0 <= i < j < gone.len() ==> (#[trigger] gone[i]).0 != (#[trigger] gone[j]).0
}

/// Whether a list of numbers holds this one.
fn contains_id(ids: &Vec<u32>, id: u32) -> (found: bool)
    ensures
        found == ids@.contains(id),
{
    let mut i: usize = 0;
    while i < ids.len()
        invariant
            0 <= i <= ids@.len(),
            forall|k: int| 0 <= k < i ==> ids@[k] != id,
        decreases ids.len() - i,
    {
        if ids[i] == id {
            return true;
        }
        i = i + 1;
    }
    false
}

impl Default for TaEntry {
    /// A TA of which nothing is known.
    fn default() -> (entry: TaEntry)
        ensures
            entry@ == TaView::unknown(),
    {
        let entry = TaEntry { flags: None, instances: HashMap::new(), next_instance_id: 1 };
        assert(entry@.instances =~= Map::empty());
        entry
    }
}

impl TaEntry {
    /// Picks the number of the next instance: the first from the last one
    /// picked that is neither zero nor in use.
    pub fn allocate_instance_id(&mut self) -> (id: u32)
        requires
            old(self)@.has_room(),
        ensures
            old(self)@.is_next_instance_id(id),
            final(self)@ == (TaView {
                next_instance_id: at_least_one(id.wrapping_add(1)),
                ..old(self)@
            }),
    {
        let ghost taken = self@.instances.dom();
        assert(taken =~= self.instances@.dom());
        let ghost free = lemma_free_exists(taken);
        let mut id: u32 = if self.next_instance_id == 0 {
            1
        } else {
            self.next_instance_id
        };
        let ghost start = id;
        while self.instances.contains_key(&id)
            invariant
                id != 0,
                start == at_least_one(old(self)@.next_instance_id),
                *self == *old(self),
                taken == self.instances@.dom(),
                taken == self@.instances.dom(),
                free != 0,
                !taken.contains(free),
                ring_distance(start, id) <= ring_distance(start, free),
                forall|other: u32|
                    other != 0 && #[trigger] ring_distance(start, other) < ring_distance(start, id)
                        ==> taken.contains(other),
            decreases ring_distance(start, free) - ring_distance(start, id),
        {
            id = if id == u32::MAX {
                1
            } else {
                id + 1
            };
        }
        self.next_instance_id = if id == u32::MAX {
            1
        } else {
            id + 1
        };
        id
    }

    /// Whether a number is left for one more instance.
    pub fn has_room(&self) -> (room: bool)
        ensures
            room == self@.has_room(),
    {
        assert(self@.instances.dom() =~= self.instances@.dom());
        let used: usize = self.instances.len();
        if self.instances.contains_key(&0) {
            used - 1 < u32::MAX as usize
        } else {
            assert(self@.instances.dom().remove(0) =~= self@.instances.dom());
            used < u32::MAX as usize
        }
    }

    /// Some instance in this state.
    pub fn find_in_state(&self, state: InstanceState) -> (found: Option<u32>)
        ensures
            found is Some <==> self@.some_instance_is(state),
            found matches Some(id) ==> self@.instance_is(id, state),
    {
        let mut found: Option<u32> = None;
        for item in it: self.instances.iter()
            invariant
                found matches Some(id) ==> self@.instance_is(id, state),
                found is None ==> forall|k: int|
                    0 <= k < it.index() ==> (#[trigger] it.seq()[k]).1.state != state,
                forall|id: u32| #[trigger]
                    self.instances@.contains_key(id) ==> it.seq().contains(
                        (&id, &self.instances@[id]),
                    ),
                forall|k: int|
                    0 <= k < it.seq().len() ==> self.instances@.contains_key(
                        *(#[trigger] it.seq()[k]).0,
                    ) && self.instances@[*it.seq()[k].0] == *it.seq()[k].1,
        {
            if found.is_none() && item.1.state == state {
                found = Some(*item.0);
            }
        }
        found
    }

    /// Takes out the instances that are over. `exited` names the instances
    /// whose process was found to have ended. Returned are the numbers of
    /// those taken out, each with the path of its socket.
    pub fn reap(&mut self, exited: &Vec<u32>) -> (gone: Vec<(u32, String)>)
        ensures
            final(self)@ == old(self)@.reaped(exited@),
            is_list_of_gone(gone@, old(self)@, exited@),
            forall|id: u32| #[trigger]
                final(self)@.instances.contains_key(id) ==> !(final(self)@.instances[id].state
                    is Dead) && !(final(self)@.instances[id].pid is Some && exited@.contains(id)),
    {
        let ghost before = self@.instances;
        let mut over: Vec<u32> = Vec::new();
        for item in it: self.instances.iter()
            invariant
                before == self@.instances,
                forall|i: int|
                    0 <= i < over@.len() ==> before.contains_key(#[trigger] over@[i]) && is_over(
                        before[over@[i]],
                        over@[i],
                        exited@,
                    ) && exists|k: int|
                        0 <= k < it.index() && *(#[trigger] it.seq()[k]).0 == over@[i],
                forall|i: int, j: int|
                    0 <= i < j < over@.len() ==> #[trigger] over@[i] != #[trigger] over@[j],
                forall|k: int|
                    0 <= k < it.index() && is_over(
                        before[*(#[trigger] it.seq()[k]).0],
                        *it.seq()[k].0,
                        exited@,
                    ) ==> over@.contains(*it.seq()[k].0),
                it.seq().no_duplicates(),
                forall|id: u32| #[trigger]
                    self.instances@.contains_key(id) ==> it.seq().contains(
                        (&id, &self.instances@[id]),
                    ),
                forall|k: int|
                    0 <= k < it.seq().len() ==> self.instances@.contains_key(
                        *(#[trigger] it.seq()[k]).0,
                    ) && self.instances@[*it.seq()[k].0] == *it.seq()[k].1,
        {
            let ended: bool = item.1.pid.is_some() && contains_id(exited, *item.0);
            let ghost known = over@;
            if ended || item.1.state == InstanceState::Dead {
                over.push(*item.0);
                assert(over@[known.len() as int] == *item.0);
            }
            assert forall|id: u32| known.contains(id) implies over@.contains(id) by {
                let i = choose|i: int| 0 <= i < known.len() && known[i] == id;
                assert(over@[i] == id);
            }
        }
        assert forall|id: u32| before.contains_key(id) && is_over(
            before[id],
            id,
            exited@,
        ) implies #[trigger] over@.contains(id) by {
            assert(self.instances@.contains_key(id));
        }
        let mut gone: Vec<(u32, String)> = Vec::new();
        let mut i: usize = 0;
        while i < over.len()
            invariant
                0 <= i <= over@.len(),
                before == old(self)@.instances,
                forall|k: int|
                    0 <= k < over@.len() ==> before.contains_key(#[trigger] over@[k]) && is_over(
                        before[over@[k]],
                        over@[k],
                        exited@,
                    ),
                forall|k: int, l: int|
                    0 <= k < l < over@.len() ==> #[trigger] over@[k] != #[trigger] over@[l],
                gone@.len() == i,
                forall|k: int|
                    0 <= k < i ==> (#[trigger] gone@[k]).0 == over@[k] && gone@[k].1@
                        == before[over@[k]].socket_path,
                forall|id: u32| #[trigger]
                    self@.instances.contains_key(id) <==> before.contains_key(id) && !exists|
                        k: int,
                    |
                        0 <= k < i && #[trigger] over@[k] == id,
                forall|id: u32| #[trigger]
                    self@.instances.contains_key(id) ==> self@.instances[id] == before[id],
                self.flags == old(self).flags,
                self.next_instance_id == old(self).next_instance_id,
            decreases over.len() - i,
        {
            let id: u32 = over[i];
            let ghost held = self@.instances;
            assert(self@.instances.contains_key(id));
            if let Some(instance) = self.instances.remove(&id) {
                gone.push((id, instance.socket_path));
            }
            assert(self@.instances =~= held.remove(id));
            i = i + 1;
        }
        assert(self@.instances =~= old(self)@.reaped(exited@).instances);
        proof {
            assert forall|id: u32| before.contains_key(id) && is_over(
                before[id],
                id,
                exited@,
            ) implies exists|k: int| 0 <= k < gone@.len() && (#[trigger] gone@[k]).0 == id by {
                assert(over@.contains(id));
                let k = choose|k: int| 0 <= k < over@.len() && over@[k] == id;
                assert(gone@[k].0 == id);
            }
        }
        gone
    }

    /// Enters the registration of an instance. Where the TA has registered
    /// with other flags before, those stand, and are returned.
    pub fn register(&mut self, uuid: &str, instance_id: u32, socket_path: String, flags: TaFlags) -> (
    mismatch: Option<TaFlags>)
        ensures
            final(self)@ == old(self)@.registered(uuid@, instance_id, socket_path@, flags),
            mismatch == if old(self)@.flags is Some && old(self)@.flags != Some(flags) {
                old(self)@.flags
            } else {
                None
            },
    {
        let mismatch: Option<TaFlags> = match self.flags {
            Some(existing) => if existing != flags {
                Some(existing)
            } else {
                None
            },
            None => {
                self.flags = Some(flags);
                None
            },
        };
        let mut instance: InstanceEntry = match self.instances.remove(&instance_id) {
            Some(held) => held,
            None => InstanceEntry::new_starting(uuid, instance_id),
        };
        instance.state = InstanceState::Ready;
        instance.socket_path = socket_path;
        self.instances.insert(instance_id, instance);
        assert(self@.instances =~= old(self)@.registered(
            uuid@,
            instance_id,
            socket_path@,
            flags,
        ).instances);
        mismatch
    }

    /// Declares an instance dead.
    pub fn kill(&mut self, instance_id: u32)
        ensures
            final(self)@ == old(self)@.killed(instance_id),
            final(self)@.instances.dom() == old(self)@.instances.dom(),
            forall|other: u32|
                other != instance_id && #[trigger] old(self)@.instances.contains_key(other)
                    ==> final(self)@.instances[other] == old(self)@.instances[other],
    {
        if let Some(held) = self.instances.remove(&instance_id) {
            let mut instance: InstanceEntry = held;
            instance.state = InstanceState::Dead;
            self.instances.insert(instance_id, instance);
        }
        assert(self@.instances =~= old(self)@.killed(instance_id).instances);
    }

    /// Notes the process that was started for an instance.
    pub fn attach(&mut self, instance_id: u32, pid: u32)
        ensures
            final(self)@ == old(self)@.spawned(instance_id, pid),
    {
        if let Some(held) = self.instances.remove(&instance_id) {
            let mut instance: InstanceEntry = held;
            instance.pid = Some(pid);
            if instance.state != InstanceState::Ready {
                instance.state = InstanceState::Starting;
            }
            self.instances.insert(instance_id, instance);
        }
        assert(self@.instances =~= old(self)@.spawned(instance_id, pid).instances);
    }

    /// Counts a session that was opened on an instance.
    pub fn add_session(&mut self, instance_id: u32)
        ensures
            final(self)@ == old(self)@.session_added(instance_id),
    {
        if let Some(held) = self.instances.remove(&instance_id) {
            let mut instance: InstanceEntry = held;
            if instance.active_sessions < u32::MAX {
                instance.active_sessions = instance.active_sessions + 1;
            }
            self.instances.insert(instance_id, instance);
        }
        assert(self@.instances =~= old(self)@.session_added(instance_id).instances);
    }

    /// Counts a session that was closed on an instance, and retires the
    /// instance where it has no more use. Returned is the process to end, if a
    /// retired instance has one.
    pub fn close_session(&mut self, instance_id: u32) -> (to_end: Option<u32>)
        ensures
            final(self)@ == old(self)@.session_closed(instance_id),
            to_end == old(self)@.process_to_end(instance_id),
            to_end is Some ==> final(self)@.instances[instance_id].state is Dead,
            final(self)@.instances.dom() == old(self)@.instances.dom(),
    {
        let flags: TaFlags = match self.flags {
            Some(flags) => flags,
            None => return None,
        };
        let mut to_end: Option<u32> = None;
        if let Some(held) = self.instances.remove(&instance_id) {
            let mut instance: InstanceEntry = held;
            if instance.active_sessions > 0 {
                instance.active_sessions = instance.active_sessions - 1;
            }
            if !flags.is_single_instance || (!flags.is_instance_keep_alive
                && instance.active_sessions == 0) {
                instance.state = InstanceState::Dead;
                to_end = instance.pid;
            }
            self.instances.insert(instance_id, instance);
        }
        assert(self@.instances =~= old(self)@.session_closed(instance_id).instances);
        to_end
    }
}

} // verus!
