//! What each change of a TA does, field by field, to the instance that it is
//! about and to every other.

use vstd::prelude::*;

use crate::instance::{
    is_list_of_gone, starting_instance, InstanceState, TaFlags, TaView,
};

verus! {

/// A TA of which nothing is known has no flags and no instances, and its first
/// instance gets number one.
pub proof fn law_unknown_ta_is_empty(id: u32)
    ensures
        TaView::unknown().flags is None,
        TaView::unknown().next_instance_id == 1,
        !TaView::unknown().instances.contains_key(id),
{
}

/// An instance that is about to be started has no process, no sessions, and is
/// not ready. Its socket is named after the TA and the instance.
pub proof fn law_new_instance_is_blank(uuid: Seq<char>, id: u32)
    ensures
        starting_instance(uuid, id).pid is None,
        starting_instance(uuid, id).state == InstanceState::Starting,
        starting_instance(uuid, id).active_sessions == 0,
        starting_instance(uuid, id).socket_path == "/tmp/"@ + uuid + "."@ + crate::text::decimal(
            id as nat,
        ) + ".sock"@,
{
}

/// Reaping takes out exactly the instances that are dead, and those that have
/// a process that was found to have ended, in whatever state they are. All
/// others stay as they were, and so does all else of the TA.
pub proof fn law_reaping_takes_dead_and_ended(ta: TaView, exited: Seq<u32>, id: u32)
    ensures
        ta.reaped(exited).instances.contains_key(id) <==> {
            &&& ta.instances.contains_key(id)
            &&& ta.instances[id].state != InstanceState::Dead
            &&& !(ta.instances[id].pid is Some && exited.contains(id))
        },
        ta.reaped(exited).instances.contains_key(id) ==> ta.reaped(exited).instances[id]
            == ta.instances[id],
        ta.reaped(exited).flags == ta.flags,
        ta.reaped(exited).next_instance_id == ta.next_instance_id,
{
}

/// The instances that are listed as gone are exactly the dead ones and those
/// with a process that was found to have ended, each once, with the socket
/// that it had.
pub proof fn law_gone_are_dead_or_ended(
    gone: Seq<(u32, String)>,
    ta: TaView,
    exited: Seq<u32>,
    id: u32,
)
    requires
        is_list_of_gone(gone, ta, exited),
    ensures
        (exists|i: int| 0 <= i < gone.len() && (#[trigger] gone[i]).0 == id) <==> {
            &&& ta.instances.contains_key(id)
            &&& ta.instances[id].state == InstanceState::Dead || (ta.instances[id].pid is Some
                && exited.contains(id))
        },
        forall|i: int|
            0 <= i < gone.len() && (#[trigger] gone[i]).0 == id ==> gone[i].1@
                == ta.instances[id].socket_path,
        forall|i: int, j: int|
            0 <= i < gone.len() && 0 <= j < gone.len() && (#[trigger] gone[i]).0 == id && (
            #[trigger] gone[j]).0 == id ==> i == j,
{
    if ta.instances.contains_key(id) && (ta.instances[id].state == InstanceState::Dead || (
    ta.instances[id].pid is Some && exited.contains(id))) {
        assert(ta.instances.contains_key(id) && crate::instance::is_over(
            ta.instances[id],
            id,
            exited,
        ));
    }
}

/// An instance that registers is ready, on the socket that it named. One that
/// was known keeps its process and its sessions; one that was not has neither.
/// The first flags stand, and no other instance changes.
pub proof fn law_registration_makes_one_ready(
    ta: TaView,
    uuid: Seq<char>,
    id: u32,
    path: Seq<char>,
    flags: TaFlags,
    other: u32,
)
    ensures
        ({
            let after = ta.registered(uuid, id, path, flags);
            &&& after.instances.contains_key(id)
            &&& after.instances[id].state == InstanceState::Ready
            &&& after.instances[id].socket_path == path
            &&& ta.instances.contains_key(id) ==> after.instances[id].pid == ta.instances[id].pid
                && after.instances[id].active_sessions == ta.instances[id].active_sessions
            &&& !ta.instances.contains_key(id) ==> after.instances[id].pid is None
                && after.instances[id].active_sessions == 0
            &&& ta.flags is None ==> after.flags == Some(flags)
            &&& ta.flags is Some ==> after.flags == ta.flags
            &&& after.next_instance_id == ta.next_instance_id
            &&& other != id ==> (after.instances.contains_key(other)
                <==> ta.instances.contains_key(other))
            &&& other != id && ta.instances.contains_key(other) ==> after.instances[other]
                == ta.instances[other]
        }),
{
}

/// An instance that is declared dead keeps all but its state, and every other
/// instance of the TA is there exactly if it was before, unchanged.
pub proof fn law_death_touches_one_instance(ta: TaView, id: u32, other: u32)
    ensures
        ta.killed(id).flags == ta.flags,
        ta.killed(id).next_instance_id == ta.next_instance_id,
        ta.killed(id).instances.contains_key(other) <==> ta.instances.contains_key(other),
        other != id && ta.instances.contains_key(other) ==> ta.killed(id).instances[other]
            == ta.instances[other],
        ta.instances.contains_key(id) ==> {
            let after = ta.killed(id).instances[id];
            &&& after.state == InstanceState::Dead
            &&& after.pid == ta.instances[id].pid
            &&& after.socket_path == ta.instances[id].socket_path
            &&& after.active_sessions == ta.instances[id].active_sessions
        },
{
}

/// When a process was started for an instance, the instance has its pid, and
/// waits for it to register unless it has. No other instance changes, and none
/// comes or goes.
pub proof fn law_start_touches_one_instance(ta: TaView, id: u32, pid: u32, other: u32)
    ensures
        ta.spawned(id, pid).flags == ta.flags,
        ta.spawned(id, pid).next_instance_id == ta.next_instance_id,
        ta.spawned(id, pid).instances.contains_key(other) <==> ta.instances.contains_key(other),
        other != id && ta.instances.contains_key(other) ==> ta.spawned(id, pid).instances[other]
            == ta.instances[other],
        ta.instances.contains_key(id) ==> {
            let after = ta.spawned(id, pid).instances[id];
            &&& after.pid == Some(pid)
            &&& ta.instances[id].state == InstanceState::Ready ==> after.state
                == InstanceState::Ready
            &&& ta.instances[id].state != InstanceState::Ready ==> after.state
                == InstanceState::Starting
            &&& after.socket_path == ta.instances[id].socket_path
            &&& after.active_sessions == ta.instances[id].active_sessions
        },
{
}

/// A session that was opened is counted on its instance, up to the largest
/// number that can be, and nowhere else.
pub proof fn law_opened_session_is_counted_once(ta: TaView, id: u32, other: u32)
    ensures
        ta.session_added(id).flags == ta.flags,
        ta.session_added(id).next_instance_id == ta.next_instance_id,
        ta.session_added(id).instances.contains_key(other) <==> ta.instances.contains_key(other),
        other != id && ta.instances.contains_key(other) ==> ta.session_added(id).instances[other]
            == ta.instances[other],
        ta.instances.contains_key(id) ==> {
            let before = ta.instances[id];
            let after = ta.session_added(id).instances[id];
            &&& before.active_sessions < u32::MAX ==> after.active_sessions
                == before.active_sessions + 1
            &&& before.active_sessions == u32::MAX ==> after.active_sessions == u32::MAX
            &&& after.state == before.state
            &&& after.pid == before.pid
            &&& after.socket_path == before.socket_path
        },
{
}

/// A session that was closed is counted off on its instance, and nowhere else.
/// The instance dies with it exactly where it served this session only, or
/// where it is not kept alive and this was the last. Before the flags of the
/// TA are known, nothing changes.
pub proof fn law_closed_session_is_counted_off(ta: TaView, id: u32, other: u32)
    ensures
        ta.session_closed(id).flags == ta.flags,
        ta.session_closed(id).next_instance_id == ta.next_instance_id,
        ta.session_closed(id).instances.contains_key(other) <==> ta.instances.contains_key(other),
        other != id && ta.instances.contains_key(other) ==> ta.session_closed(id).instances[other]
            == ta.instances[other],
        ta.flags is None && ta.instances.contains_key(id) ==> ta.session_closed(id).instances[id]
            == ta.instances[id],
        ta.flags matches Some(flags) ==> ta.instances.contains_key(id) ==> {
            let before = ta.instances[id];
            let after = ta.session_closed(id).instances[id];
            &&& before.active_sessions > 0 ==> after.active_sessions == before.active_sessions - 1
            &&& before.active_sessions == 0 ==> after.active_sessions == 0
            &&& !flags.is_single_instance ==> after.state == InstanceState::Dead
            &&& flags.is_single_instance && flags.is_instance_keep_alive ==> after.state
                == before.state
            &&& flags.is_single_instance && !flags.is_instance_keep_alive && before.active_sessions
                <= 1 ==> after.state == InstanceState::Dead
            &&& flags.is_single_instance && !flags.is_instance_keep_alive && before.active_sessions
                > 1 ==> after.state == before.state
            &&& after.pid == before.pid
            &&& after.socket_path == before.socket_path
        },
{
}

/// A process is handed out to be ended only when a closed session leaves its
/// instance dead: the TA runs one process for each session, or the instance is
/// not kept alive and had no other session. Then it is the process of that
/// instance, if there is one. An instance that is kept alive, or that has
/// another session, keeps its process.
pub proof fn law_only_dead_instances_lose_their_process(ta: TaView, id: u32)
    ensures
        ta.process_to_end(id) matches Some(pid) ==> {
            &&& ta.instances.contains_key(id)
            &&& ta.instances[id].pid == Some(pid)
            &&& ta.session_closed(id).instances[id].state == InstanceState::Dead
            &&& ta.flags matches Some(flags) && (!flags.is_single_instance || (
            !flags.is_instance_keep_alive && ta.instances[id].active_sessions <= 1))
        },
        ta.flags matches Some(flags) && flags.is_single_instance && (flags.is_instance_keep_alive
            || ta.instances[id].active_sessions > 1) ==> ta.process_to_end(id) is None,
        ta.flags matches Some(flags) && !flags.is_single_instance && ta.instances.contains_key(id)
            ==> ta.process_to_end(id) == ta.instances[id].pid,
        ta.flags matches Some(flags) && !flags.is_instance_keep_alive && ta.instances.contains_key(
            id,
        ) && ta.instances[id].active_sessions <= 1 ==> ta.process_to_end(id)
            == ta.instances[id].pid,
        ta.flags is None ==> ta.process_to_end(id) is None,
        !ta.instances.contains_key(id) ==> ta.process_to_end(id) is None,
{
}

/// Which process is to be ended, and whether the instance dies, depends on the
/// flags only in whether the TA runs one instance and keeps it alive: the flag
/// for many sessions plays no part.
pub proof fn law_session_flag_plays_no_part_in_closing(ta: TaView, flags: TaFlags, id: u32)
    requires
        ta.flags == Some(flags),
    ensures
        ({
            let turned = TaView {
                flags: Some(TaFlags { is_multi_session: !flags.is_multi_session, ..flags }),
                ..ta
            };
            &&& turned.process_to_end(id) == ta.process_to_end(id)
            &&& turned.session_closed(id).instances == ta.session_closed(id).instances
        }),
{
    let turned = TaView {
        flags: Some(TaFlags { is_multi_session: !flags.is_multi_session, ..flags }),
        ..ta
    };
    assert(turned.session_closed(id).instances =~= ta.session_closed(id).instances);
}

/// An instance that is taken out is gone; every other stays as it was.
pub proof fn law_taking_out_touches_one_instance(ta: TaView, id: u32, other: u32)
    ensures
        !ta.without_instance(id).instances.contains_key(id),
        ta.without_instance(id).flags == ta.flags,
        ta.without_instance(id).next_instance_id == ta.next_instance_id,
        other != id ==> (ta.without_instance(id).instances.contains_key(other)
            <==> ta.instances.contains_key(other)),
        other != id && ta.instances.contains_key(other) ==> ta.without_instance(
            id,
        ).instances[other] == ta.instances[other],
{
}

/// The number of a new instance is not zero and not in use, and no number that
/// comes before it is free: numbers are tried from the one that is next on,
/// and from one again after the last.
pub proof fn law_instance_numbers_come_in_turn(ta: TaView, id: u32, other: u32)
    requires
        ta.is_next_instance_id(id),
        other != 0,
        !ta.instances.contains_key(other),
    ensures
        id != 0,
        !ta.instances.contains_key(id),
        ta.next_instance_id <= id && ta.next_instance_id <= other ==> id <= other,
        id < ta.next_instance_id ==> other < ta.next_instance_id && id <= other,
{
    let start = crate::instance::at_least_one(ta.next_instance_id);
    assert(!(crate::ids::ring_distance(start, other) < crate::ids::ring_distance(start, id)));
}

} // verus!
