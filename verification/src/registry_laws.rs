//! What each change of the registry does, over TAs and sessions together.

use vstd::prelude::*;

use crate::instance::{InstanceState, TaView};
use crate::registry::RegistryView;
use crate::session::{BindingView, SessionState};

verus! {

/// A new registry knows no TA and no session, and has the settings given. The
/// first session gets id one, with generation zero.
pub proof fn law_new_registry_is_empty(root: Seq<char>, timeout_ms: u64, uuid: Seq<char>, id: u32)
    ensures
        !RegistryView::empty(root, timeout_ms).tas.contains_key(uuid),
        !RegistryView::empty(root, timeout_ms).sessions.sessions.contains_key(id),
        RegistryView::empty(root, timeout_ms).ta_root == root,
        RegistryView::empty(root, timeout_ms).register_timeout_ms == timeout_ms,
        RegistryView::empty(root, timeout_ms).register_timeout_nanos() == timeout_ms * 1_000_000,
        RegistryView::empty(root, timeout_ms).sessions.next_generation == 0,
        RegistryView::empty(root, timeout_ms).sessions.is_next_id(id) ==> id == 1,
{
    if RegistryView::empty(root, timeout_ms).sessions.is_next_id(id) {
        crate::session_laws::law_session_ids_come_in_turn(
            RegistryView::empty(root, timeout_ms).sessions,
            id,
            1,
        );
    }
}

/// What is known of a TA is what was entered for it; of a TA that was not
/// entered, nothing is.
pub proof fn law_known_is_what_was_entered(
    r: RegistryView,
    uuid: Seq<char>,
    ta: TaView,
    other: Seq<char>,
)
    ensures
        r.tas.contains_key(uuid) ==> r.ta(uuid) == r.tas[uuid],
        !r.tas.contains_key(uuid) ==> r.ta(uuid).flags is None && r.ta(uuid).next_instance_id == 1
            && r.ta(uuid).instances =~= Map::empty(),
        r.with_ta(uuid, ta).tas.contains_key(uuid),
        r.with_ta(uuid, ta).tas[uuid] == ta,
        r.with_known_ta(uuid, ta).tas.contains_key(other) <==> r.tas.contains_key(other),
        r.tas.contains_key(uuid) ==> r.with_known_ta(uuid, ta).tas[uuid] == ta,
        other != uuid ==> (r.with_ta(uuid, ta).tas.contains_key(other) <==> r.tas.contains_key(
            other,
        )),
        other != uuid && r.tas.contains_key(other) ==> r.with_ta(uuid, ta).tas[other]
            == r.tas[other] && r.with_known_ta(uuid, ta).tas[other] == r.tas[other],
        r.with_ta(uuid, ta).sessions == r.sessions,
        r.with_known_ta(uuid, ta).sessions == r.sessions,
        r.with_ta(uuid, ta).ta_root == r.ta_root,
        r.with_ta(uuid, ta).register_timeout_ms == r.register_timeout_ms,
        r.with_known_ta(uuid, ta).ta_root == r.ta_root,
        r.with_known_ta(uuid, ta).register_timeout_ms == r.register_timeout_ms,
{
}

/// Reaping takes an instance of the TA out exactly where it is dead, or has a
/// process that was found to have ended, in whatever state it is. The sessions
/// that go are exactly those of the instances that go. All else stays.
pub proof fn law_reaping_takes_instances_with_their_sessions(
    r: RegistryView,
    uuid: Seq<char>,
    exited: Seq<u32>,
    id: u32,
    session: u32,
    other: Seq<char>,
)
    requires
        r.tas.contains_key(uuid),
    ensures
        ({
            let before = r.tas[uuid].instances;
            let after = r.reaped(uuid, exited);
            let bound_to = r.sessions.sessions[session].binding.instance_id;
            &&& after.tas.contains_key(uuid)
            &&& after.tas[uuid].instances.contains_key(id) <==> before.contains_key(id)
                && before[id].state != InstanceState::Dead && !(before[id].pid is Some
                && exited.contains(id))
            &&& after.tas[uuid].instances.contains_key(id) ==> after.tas[uuid].instances[id]
                == before[id]
            &&& after.tas[uuid].flags == r.tas[uuid].flags
            &&& after.tas[uuid].next_instance_id == r.tas[uuid].next_instance_id
            &&& after.sessions.sessions.contains_key(session)
                <==> r.sessions.sessions.contains_key(session) && !(
            r.sessions.sessions[session].binding.uuid == uuid && before.contains_key(bound_to) && (
            before[bound_to].state == InstanceState::Dead || (before[bound_to].pid is Some
                && exited.contains(bound_to))))
            &&& after.sessions.sessions.contains_key(session)
                ==> after.sessions.sessions[session] == r.sessions.sessions[session]
            &&& other != uuid ==> (after.tas.contains_key(other) <==> r.tas.contains_key(other))
            &&& other != uuid && r.tas.contains_key(other) ==> after.tas[other] == r.tas[other]
            &&& after.ta_root == r.ta_root
            &&& after.register_timeout_ms == r.register_timeout_ms
            &&& after.sessions.next_session_id == r.sessions.next_session_id
            &&& after.sessions.next_generation == r.sessions.next_generation
        }),
{
}

/// An instance that does not answer is dead, with all else of it kept, and
/// exactly its sessions are dropped. Every other instance, of this TA and of
/// others, is there exactly if it was before, unchanged.
pub proof fn law_silent_instance_dies_alone(
    r: RegistryView,
    uuid: Seq<char>,
    id: u32,
    other_uuid: Seq<char>,
    other: u32,
    session: u32,
)
    ensures
        ({
            let after = r.instance_lost(uuid, id);
            &&& after.tas.contains_key(other_uuid) <==> r.tas.contains_key(other_uuid)
            &&& r.tas.contains_key(other_uuid) ==> after.tas[other_uuid].flags
                == r.tas[other_uuid].flags && after.tas[other_uuid].next_instance_id
                == r.tas[other_uuid].next_instance_id && (
            after.tas[other_uuid].instances.contains_key(other)
                <==> r.tas[other_uuid].instances.contains_key(other))
            &&& r.tas.contains_key(other_uuid) && r.tas[other_uuid].instances.contains_key(other)
                && (other_uuid != uuid || other != id) ==> after.tas[other_uuid].instances[other]
                == r.tas[other_uuid].instances[other]
            &&& r.tas.contains_key(uuid) && r.tas[uuid].instances.contains_key(id)
                ==> after.tas[uuid].instances[id].state == InstanceState::Dead
                && after.tas[uuid].instances[id].pid == r.tas[uuid].instances[id].pid
                && after.tas[uuid].instances[id].socket_path
                == r.tas[uuid].instances[id].socket_path
                && after.tas[uuid].instances[id].active_sessions
                == r.tas[uuid].instances[id].active_sessions
            &&& after.sessions.sessions.contains_key(session)
                <==> r.sessions.sessions.contains_key(session) && !(
            r.sessions.sessions[session].binding.uuid == uuid
                && r.sessions.sessions[session].binding.instance_id == id)
            &&& after.sessions.sessions.contains_key(session)
                ==> after.sessions.sessions[session] == r.sessions.sessions[session]
            &&& after.sessions.next_session_id == r.sessions.next_session_id
            &&& after.sessions.next_generation == r.sessions.next_generation
            &&& after.ta_root == r.ta_root
            &&& after.register_timeout_ms == r.register_timeout_ms
        }),
{
}

/// A session that is bound is found open under its id, with what was given. It
/// is counted on its instance, if that is known, and on no other. No TA or
/// instance comes or goes, and all other sessions are as they were.
pub proof fn law_bound_session_is_entered_and_counted(
    r: RegistryView,
    binding: BindingView,
    id: u32,
    other_uuid: Seq<char>,
    other: u32,
    session: u32,
)
    requires
        r.sessions.is_next_id(id),
    ensures
        ({
            let after = r.session_bound(binding, id);
            let entered = after.sessions.sessions[id];
            &&& after.sessions.sessions.contains_key(id)
            &&& entered.state == SessionState::Open
            &&& entered.binding.uuid == binding.uuid
            &&& entered.binding.instance_id == binding.instance_id
            &&& entered.binding.local_session_id == binding.local_session_id
            &&& entered.binding.socket_path == binding.socket_path
            &&& session != id ==> (after.sessions.sessions.contains_key(session)
                <==> r.sessions.sessions.contains_key(session))
            &&& session != id && r.sessions.sessions.contains_key(session)
                ==> after.sessions.sessions[session] == r.sessions.sessions[session]
            &&& after.tas.contains_key(other_uuid) <==> r.tas.contains_key(other_uuid)
            &&& r.tas.contains_key(other_uuid) ==> after.tas[other_uuid].flags
                == r.tas[other_uuid].flags && after.tas[other_uuid].next_instance_id
                == r.tas[other_uuid].next_instance_id && (
            after.tas[other_uuid].instances.contains_key(other)
                <==> r.tas[other_uuid].instances.contains_key(other))
            &&& r.tas.contains_key(other_uuid) && r.tas[other_uuid].instances.contains_key(other)
                ==> {
                let was = r.tas[other_uuid].instances[other];
                let is = after.tas[other_uuid].instances[other];
                &&& is.state == was.state
                &&& is.pid == was.pid
                &&& is.socket_path == was.socket_path
                &&& is.active_sessions == if other_uuid == binding.uuid && other
                    == binding.instance_id && was.active_sessions < u32::MAX {
                    was.active_sessions + 1
                } else {
                    was.active_sessions as int
                }
            }
            &&& after.ta_root == r.ta_root
            &&& after.register_timeout_ms == r.register_timeout_ms
        }),
{
}

/// An instance that is taken back is gone, and so is its TA exactly where it
/// has neither flags nor another instance. All else stays.
pub proof fn law_rollback_takes_back_one_instance(
    r: RegistryView,
    uuid: Seq<char>,
    id: u32,
    other_uuid: Seq<char>,
    other: u32,
)
    ensures
        ({
            let after = r.rolled_back(uuid, id);
            &&& after.tas.contains_key(uuid) ==> r.tas.contains_key(uuid)
                && !after.tas[uuid].instances.contains_key(id) && after.tas[uuid].flags
                == r.tas[uuid].flags && after.tas[uuid].next_instance_id
                == r.tas[uuid].next_instance_id
            &&& r.tas.contains_key(uuid) && r.tas[uuid].flags is Some ==> after.tas.contains_key(
                uuid,
            )
            &&& r.tas.contains_key(uuid) && other != id && r.tas[uuid].instances.contains_key(other)
                ==> after.tas.contains_key(uuid) && after.tas[uuid].instances.contains_key(other)
                && after.tas[uuid].instances[other] == r.tas[uuid].instances[other]
            &&& after.tas.contains_key(uuid) && after.tas[uuid].instances.contains_key(other)
                ==> r.tas[uuid].instances.contains_key(other)
            &&& r.tas.contains_key(uuid) && r.tas[uuid].flags is None && (forall|i: u32| #[trigger]
                r.tas[uuid].instances.contains_key(i) ==> i == id) ==> !after.tas.contains_key(uuid)
            &&& other_uuid != uuid ==> (after.tas.contains_key(other_uuid)
                <==> r.tas.contains_key(other_uuid))
            &&& other_uuid != uuid && r.tas.contains_key(other_uuid) ==> after.tas[other_uuid]
                == r.tas[other_uuid]
            &&& after.sessions == r.sessions
            &&& after.ta_root == r.ta_root
            &&& after.register_timeout_ms == r.register_timeout_ms
        }),
{
    let left = r.ta(uuid).without_instance(id).instances;
    if other != id && r.tas.contains_key(uuid) && r.tas[uuid].instances.contains_key(other) {
        assert(left.dom().contains(other));
        assert(!left.is_empty());
    }
    if r.tas.contains_key(uuid) && forall|i: u32| #[trigger]
        r.tas[uuid].instances.contains_key(i) ==> i == id {
        assert(left =~= Map::empty());
    }
}

/// Reaping a TA of which nothing is known finds nothing to take out.
pub proof fn law_reaping_an_unknown_ta(
    r: RegistryView,
    uuid: Seq<char>,
    exited: Seq<u32>,
    id: u32,
    session: u32,
)
    requires
        !r.tas.contains_key(uuid),
    ensures
        r.reaped(uuid, exited).tas.contains_key(uuid),
        r.reaped(uuid, exited).tas[uuid].flags is None,
        r.reaped(uuid, exited).tas[uuid].next_instance_id == 1,
        !r.reaped(uuid, exited).tas[uuid].instances.contains_key(id),
        r.reaped(uuid, exited).sessions.sessions.contains_key(session)
            <==> r.sessions.sessions.contains_key(session),
{
}

} // verus!
