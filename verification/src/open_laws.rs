//! When an attempt to open a session is served, waits, or starts an instance,
//! said of the flags and of the states of the instances.

use vstd::prelude::*;

use crate::instance::{InstanceState, TaFlags, TaView};
use crate::open::{AttemptView, EnsureTaError, OpenAction, OpenDecision, OpenEvent, OpenStep};
use crate::registry::RegistryView;

verus! {

/// Where a TA runs one process for each session, whatever its other flags, the
/// instance that was started for the session settles everything: the session
/// is opened on it once it is ready, waits while it is starting, and gets a new
/// one where it is dead, gone, or was never started. As long as nothing is
/// started, the TA does not change.
pub proof fn law_own_instance_settles_the_decision(
    ta: TaView,
    flags: TaFlags,
    uuid: Seq<char>,
    awaiting: Option<u32>,
    decision: OpenDecision,
    after: TaView,
)
    requires
        ta.flags == Some(flags),
        !flags.is_single_instance,
        ta.decides(uuid, awaiting, decision, after),
    ensures
        match awaiting {
            None => decision is Spawn,
            Some(own) => if !ta.instances.contains_key(own) {
                decision is Spawn
            } else {
                match ta.instances[own].state {
                    InstanceState::Ready => decision matches OpenDecision::Return(route)
                        && route.instance_id == own && route.uuid@ == uuid && route.socket_path@
                        == ta.instances[own].socket_path && after == ta,
                    InstanceState::Starting => decision is Wait && after == ta,
                    InstanceState::Dead => decision is Spawn,
                }
            },
        },
{
}

/// Where a TA does not run one process for each session, or where that is not
/// known yet, any instance that is ready serves; while none is, one that is
/// starting is waited for; and only where all are dead a new one is started.
/// It does not matter whether the session had one started for it.
pub proof fn law_shared_instances_settle_the_decision(
    ta: TaView,
    uuid: Seq<char>,
    awaiting: Option<u32>,
    decision: OpenDecision,
    after: TaView,
    id: u32,
)
    requires
        ta.flags matches Some(flags) ==> flags.is_single_instance,
        ta.decides(uuid, awaiting, decision, after),
    ensures
        ta.instances.contains_key(id) && ta.instances[id].state == InstanceState::Ready
            ==> decision is Return,
        ta.instances.contains_key(id) && ta.instances[id].state == InstanceState::Starting
            ==> !(decision is Spawn),
        decision matches OpenDecision::Return(route) ==> {
            &&& ta.instances.contains_key(route.instance_id)
            &&& ta.instances[route.instance_id].state == InstanceState::Ready
            &&& route.uuid@ == uuid
            &&& route.socket_path@ == ta.instances[route.instance_id].socket_path
            &&& after == ta
        },
        decision is Wait ==> after == ta && exists|w: u32| #[trigger]
            ta.instances.contains_key(w) && ta.instances[w].state == InstanceState::Starting,
{
    if ta.instances.contains_key(id) {
        assert(ta.instance_is(id, ta.instances[id].state));
    }
    if decision is Wait {
        let w = choose|w: u32| ta.instance_is(w, InstanceState::Starting);
        assert(ta.instances.contains_key(w));
    }
}

/// The decision depends on the flags in one way only: whether the TA runs one
/// process for each session. Of two TAs with the same instances that agree in
/// that, both return, both wait, or both start the same instance.
pub proof fn law_other_flags_play_no_part(
    a: TaView,
    b: TaView,
    uuid: Seq<char>,
    awaiting: Option<u32>,
    decision_a: OpenDecision,
    after_a: TaView,
    decision_b: OpenDecision,
    after_b: TaView,
)
    requires
        a.instances == b.instances,
        a.next_instance_id == b.next_instance_id,
        (a.flags matches Some(f) && !f.is_single_instance) == (b.flags matches Some(g)
            && !g.is_single_instance),
        a.decides(uuid, awaiting, decision_a, after_a),
        b.decides(uuid, awaiting, decision_b, after_b),
    ensures
        decision_a is Return <==> decision_b is Return,
        decision_a is Wait <==> decision_b is Wait,
        decision_a is Spawn ==> decision_a == decision_b,
        after_a.instances == after_b.instances,
        after_a.flags == a.flags,
        after_b.flags == b.flags,
{
    assert forall|id: u32, state: InstanceState| #[trigger]
        a.instance_is(id, state) == b.instance_is(id, state) by {}
    assert forall|state: InstanceState| #[trigger]
        a.some_instance_is(state) == b.some_instance_is(state) by {
        if a.some_instance_is(state) {
            let id = choose|id: u32| a.instance_is(id, state);
            assert(b.instance_is(id, state));
        }
        if b.some_instance_is(state) {
            let id = choose|id: u32| b.instance_is(id, state);
            assert(a.instance_is(id, state));
        }
    }
    if let OpenDecision::Spawn { instance_id: x } = decision_a {
        if let OpenDecision::Spawn { instance_id: y } = decision_b {
            crate::ids::law_first_free_is_unique(
                a.instances.dom(),
                crate::instance::at_least_one(a.next_instance_id),
                x,
                y,
            );
        }
    }
}

/// A decision to start an instance enters one that is new and blank, under a
/// free number, and changes no other. The number after it is next, and one
/// after the last.
pub proof fn law_start_enters_one_instance(
    ta: TaView,
    uuid: Seq<char>,
    awaiting: Option<u32>,
    id: u32,
    after: TaView,
    other: u32,
)
    requires
        ta.decides(uuid, awaiting, OpenDecision::Spawn { instance_id: id }, after),
    ensures
        id != 0,
        !ta.instances.contains_key(id),
        after.instances.contains_key(id),
        after.instances[id].state == InstanceState::Starting,
        after.instances[id].pid is None,
        after.instances[id].active_sessions == 0,
        after.instances[id].socket_path == "/tmp/"@ + uuid + "."@ + crate::text::decimal(id as nat)
            + ".sock"@,
        after.flags == ta.flags,
        after.next_instance_id == if id == u32::MAX {
            1
        } else {
            id + 1
        },
        other != id ==> (after.instances.contains_key(other) <==> ta.instances.contains_key(other)),
        other != id && ta.instances.contains_key(other) ==> after.instances[other]
            == ta.instances[other],
        other != 0 && !ta.instances.contains_key(other) && ta.next_instance_id <= other && (id
            < ta.next_instance_id || other < id) ==> false,
{
    if other != 0 && !ta.instances.contains_key(other) {
        crate::instance_laws::law_instance_numbers_come_in_turn(ta, id, other);
    }
}

/// On its turn, an attempt for a TA that runs one process for each session is
/// settled by the instance that was started for it: taken out where its process
/// has ended or it is dead, and then a new one is started; served where it is
/// ready; and waited for where it is starting.
pub proof fn law_turn_with_own_instance(
    r: RegistryView,
    flags: TaFlags,
    attempt: AttemptView,
    exited: Seq<u32>,
    step: OpenStep,
    after: RegistryView,
    attempt_after: AttemptView,
    own: u32,
)
    requires
        r.polled(attempt, exited, step, after, attempt_after),
        r.tas.contains_key(attempt.uuid),
        r.tas[attempt.uuid].flags == Some(flags),
        !flags.is_single_instance,
    ensures
        attempt.awaiting is None ==> step.action is Spawn,
        attempt.awaiting == Some(own) ==> {
            let instances = r.tas[attempt.uuid].instances;
            let there = instances.contains_key(own) && instances[own].state != InstanceState::Dead
                && !(instances[own].pid is Some && exited.contains(own));
            &&& !there ==> step.action is Spawn
            &&& there && instances[own].state == InstanceState::Starting ==> step.action
                == OpenAction::ReadClock && attempt_after == attempt && after.tas.contains_key(
                attempt.uuid,
            ) && after.tas[attempt.uuid].instances.contains_key(own)
                && after.tas[attempt.uuid].instances[own] == instances[own]
            &&& there && instances[own].state == InstanceState::Ready ==> (step.action matches
                OpenAction::Finish(Ok(route)) && route.instance_id == own && route.socket_path@
                == instances[own].socket_path)
        },
{
}

/// On its turn, an attempt for any other TA is served by an instance that is
/// ready and has not ended, waits where there is none but one is starting, and
/// starts one only where there is neither.
pub proof fn law_turn_with_shared_instances(
    r: RegistryView,
    attempt: AttemptView,
    exited: Seq<u32>,
    step: OpenStep,
    after: RegistryView,
    attempt_after: AttemptView,
    id: u32,
)
    requires
        r.polled(attempt, exited, step, after, attempt_after),
        r.tas.contains_key(attempt.uuid),
        r.tas[attempt.uuid].flags matches Some(flags) ==> flags.is_single_instance,
        r.tas[attempt.uuid].instances.contains_key(id),
        !(r.tas[attempt.uuid].instances[id].pid is Some && exited.contains(id)),
    ensures
        r.tas[attempt.uuid].instances[id].state == InstanceState::Ready ==> (step.action matches
            OpenAction::Finish(Ok(_))),
        r.tas[attempt.uuid].instances[id].state == InstanceState::Starting ==> !(
        step.action is Spawn),
{
    let before = r.reaped(attempt.uuid, exited).ta(attempt.uuid);
    if r.tas[attempt.uuid].instances[id].state != InstanceState::Dead {
        assert(before.instance_is(id, r.tas[attempt.uuid].instances[id].state));
    }
}

/// An instance whose process was found to have ended, or that is dead, does not
/// outlive the turn, in whatever state it was. Its sessions are dropped, it is
/// listed with the socket that it leaves behind, and no route leads to it. Its
/// number may only come back as that of a new instance.
pub proof fn law_ended_instance_does_not_outlive_the_turn(
    r: RegistryView,
    attempt: AttemptView,
    exited: Seq<u32>,
    step: OpenStep,
    after: RegistryView,
    attempt_after: AttemptView,
    id: u32,
    session: u32,
)
    requires
        r.polled(attempt, exited, step, after, attempt_after),
        r.tas.contains_key(attempt.uuid),
        r.tas[attempt.uuid].instances.contains_key(id),
        r.tas[attempt.uuid].instances[id].state == InstanceState::Dead || (
        r.tas[attempt.uuid].instances[id].pid is Some && exited.contains(id)),
    ensures
        after.tas[attempt.uuid].instances.contains_key(id) ==> step.action == (OpenAction::Spawn {
            instance_id: id,
        }),
        step.action matches OpenAction::Finish(Ok(route)) ==> route.instance_id != id,
        after.sessions.sessions.contains_key(session) ==> !(
        after.sessions.sessions[session].binding.uuid == attempt.uuid
            && after.sessions.sessions[session].binding.instance_id == id),
        exists|i: int|
            0 <= i < step.gone@.len() && (#[trigger] step.gone@[i]).0 == id && step.gone@[i].1@
                == r.tas[attempt.uuid].instances[id].socket_path,
{
    let ta = r.tas[attempt.uuid];
    assert(ta.instances.contains_key(id) && crate::instance::is_over(
        ta.instances[id],
        id,
        exited,
    ));
}

/// An instance that is neither dead nor ended outlives the turn unchanged, with
/// its sessions, and is not listed as gone. Other TAs, and their sessions, are
/// not touched.
pub proof fn law_live_instance_outlives_the_turn(
    r: RegistryView,
    attempt: AttemptView,
    exited: Seq<u32>,
    step: OpenStep,
    after: RegistryView,
    attempt_after: AttemptView,
    id: u32,
    session: u32,
    other: Seq<char>,
)
    requires
        r.polled(attempt, exited, step, after, attempt_after),
    ensures
        r.tas.contains_key(attempt.uuid) && r.tas[attempt.uuid].instances.contains_key(id)
            && r.tas[attempt.uuid].instances[id].state != InstanceState::Dead && !(
        r.tas[attempt.uuid].instances[id].pid is Some && exited.contains(id)) ==> {
            &&& after.tas[attempt.uuid].instances.contains_key(id)
            &&& after.tas[attempt.uuid].instances[id] == r.tas[attempt.uuid].instances[id]
            &&& forall|i: int|
                0 <= i < step.gone@.len() ==> (#[trigger] step.gone@[i]).0 != id
            &&& r.sessions.sessions.contains_key(session)
                && r.sessions.sessions[session].binding.uuid == attempt.uuid
                && r.sessions.sessions[session].binding.instance_id == id
                ==> after.sessions.sessions.contains_key(session)
                && after.sessions.sessions[session] == r.sessions.sessions[session]
        },
        r.sessions.sessions.contains_key(session) && r.sessions.sessions[session].binding.uuid
            != attempt.uuid ==> after.sessions.sessions.contains_key(session)
            && after.sessions.sessions[session] == r.sessions.sessions[session],
        after.sessions.sessions.contains_key(session) ==> r.sessions.sessions.contains_key(
            session,
        ) && after.sessions.sessions[session] == r.sessions.sessions[session],
        other != attempt.uuid ==> (after.tas.contains_key(other) <==> r.tas.contains_key(other)),
        other != attempt.uuid && r.tas.contains_key(other) ==> after.tas[other] == r.tas[other],
        r.tas.contains_key(attempt.uuid) ==> after.tas[attempt.uuid].flags
            == r.tas[attempt.uuid].flags,
        after.ta_root == r.ta_root,
        after.register_timeout_ms == r.register_timeout_ms,
        after.sessions.next_session_id == r.sessions.next_session_id,
        after.sessions.next_generation == r.sessions.next_generation,
{
}

/// A turn ends with a route, with a wait, or with a start, and only a start
/// changes what the attempt waits for: the instance to be started.
pub proof fn law_turn_tracks_what_it_started(
    r: RegistryView,
    attempt: AttemptView,
    exited: Seq<u32>,
    step: OpenStep,
    after: RegistryView,
    attempt_after: AttemptView,
)
    requires
        r.polled(attempt, exited, step, after, attempt_after),
    ensures
        attempt_after.uuid == attempt.uuid,
        match step.action {
            OpenAction::Spawn { instance_id } => attempt_after.awaiting == Some(instance_id)
                && after.tas.contains_key(attempt.uuid)
                && after.tas[attempt.uuid].instances.contains_key(instance_id)
                && after.tas[attempt.uuid].instances[instance_id].state == InstanceState::Starting
                && after.tas[attempt.uuid].instances[instance_id].pid is None,
            OpenAction::ReadClock => attempt_after.awaiting == attempt.awaiting,
            OpenAction::Finish(Ok(route)) => attempt_after.awaiting == attempt.awaiting
                && route.uuid@ == attempt.uuid,
            _ => false,
        },
{
}

/// An attempt that has to wait gives up once the time is over. Before that it
/// goes on where what it waits for is ready: its own instance, or any where it
/// has none. Else it sleeps until the time is over, not longer or shorter.
pub proof fn law_wait_ends_with_readiness_or_time(
    r: RegistryView,
    attempt: AttemptView,
    elapsed_nanos: u128,
    id: u32,
)
    requires
        r.tas.contains_key(attempt.uuid),
    ensures
        ({
            let instances = r.tas[attempt.uuid].instances;
            let action = r.action_at(attempt, elapsed_nanos);
            let over = elapsed_nanos >= r.register_timeout_ms * 1_000_000;
            &&& over ==> action == OpenAction::Finish(Err(EnsureTaError::RegisterTimeout))
            &&& !over && instances.contains_key(id) && instances[id].state == InstanceState::Ready
                && (attempt.awaiting is None || attempt.awaiting == Some(id)) ==> action
                == OpenAction::Poll
            &&& action == OpenAction::Poll ==> !over && exists|w: u32| #[trigger]
                instances.contains_key(w) && instances[w].state == InstanceState::Ready && (
                attempt.awaiting is None || attempt.awaiting == Some(w))
            &&& !over && action != OpenAction::Poll ==> action == (OpenAction::Sleep {
                nanos: (r.register_timeout_ms * 1_000_000 - elapsed_nanos) as u128,
            })
        }),
{
    let ta = r.tas[attempt.uuid];
    if ta.instances.contains_key(id) {
        assert(ta.instance_is(id, ta.instances[id].state));
    }
    if r.action_at(attempt, elapsed_nanos) == OpenAction::Poll {
        match attempt.awaiting {
            Some(own) => {
                assert(ta.instances.contains_key(own));
            },
            None => {
                let w = choose|w: u32| ta.instance_is(w, InstanceState::Ready);
                assert(ta.instances.contains_key(w));
            },
        }
    }
}

/// An attempt for a TA of which nothing is known has nothing to wait for but
/// the time.
pub proof fn law_wait_for_unknown_ta(r: RegistryView, attempt: AttemptView, elapsed_nanos: u128)
    requires
        !r.tas.contains_key(attempt.uuid),
    ensures
        r.action_at(attempt, elapsed_nanos) == if elapsed_nanos >= r.register_timeout_ms
            * 1_000_000 {
            OpenAction::Finish(Err(EnsureTaError::RegisterTimeout))
        } else {
            OpenAction::Sleep {
                nanos: (r.register_timeout_ms * 1_000_000 - elapsed_nanos) as u128,
            }
        },
{
}

/// Waking up and reading the clock change nothing. Who slept through the whole
/// time gives up; who was woken has its turn.
pub proof fn law_waiting_changes_nothing(
    r: RegistryView,
    attempt: AttemptView,
    event: OpenEvent,
    step: OpenStep,
    after: RegistryView,
    attempt_after: AttemptView,
)
    requires
        r.steps(attempt, event, step, after, attempt_after),
        event is Woken || event is Clock,
    ensures
        after == r,
        attempt_after == attempt,
        step.gone@.len() == 0,
        event matches OpenEvent::Woken { timed_out } ==> if timed_out {
            step.action == OpenAction::Finish(Err(EnsureTaError::RegisterTimeout))
        } else {
            step.action == OpenAction::Poll
        },
        event matches OpenEvent::Clock { elapsed_nanos } ==> step.action == r.action_at(
            attempt,
            elapsed_nanos,
        ),
{
}

/// A process that was started is noted on its instance, if that is still there,
/// and the attempt has its turn. Nothing else changes.
pub proof fn law_started_process_is_noted(
    r: RegistryView,
    attempt: AttemptView,
    id: u32,
    pid: u32,
    step: OpenStep,
    after: RegistryView,
    attempt_after: AttemptView,
    other: u32,
    uuid: Seq<char>,
)
    requires
        r.steps(
            attempt,
            OpenEvent::Spawned { instance_id: id, pid },
            step,
            after,
            attempt_after,
        ),
        r.tas.contains_key(attempt.uuid),
    ensures
        step.action == OpenAction::Poll,
        step.gone@.len() == 0,
        attempt_after == attempt,
        ({
            let before = r.tas[attempt.uuid].instances;
            let now = after.tas[attempt.uuid].instances;
            &&& now.contains_key(other) <==> before.contains_key(other)
            &&& before.contains_key(other) && other != id ==> now[other] == before[other]
            &&& before.contains_key(id) ==> now[id].pid == Some(pid) && now[id].socket_path
                == before[id].socket_path && now[id].active_sessions == before[id].active_sessions
                && (before[id].state == InstanceState::Ready <==> now[id].state
                == InstanceState::Ready) && now[id].state != InstanceState::Dead
        }),
        uuid != attempt.uuid ==> (after.tas.contains_key(uuid) <==> r.tas.contains_key(uuid)),
        uuid != attempt.uuid && r.tas.contains_key(uuid) ==> after.tas[uuid] == r.tas[uuid],
        after.sessions == r.sessions,
{
}

/// A start that failed ends the attempt with its reason. The instance is gone
/// again, and so is the TA where it had neither flags nor another instance.
/// Nothing else changes.
pub proof fn law_failed_start_is_undone(
    r: RegistryView,
    attempt: AttemptView,
    id: u32,
    error: EnsureTaError,
    step: OpenStep,
    after: RegistryView,
    attempt_after: AttemptView,
    other: u32,
    uuid: Seq<char>,
)
    requires
        r.steps(
            attempt,
            OpenEvent::SpawnFailed { instance_id: id, error },
            step,
            after,
            attempt_after,
        ),
        r.tas.contains_key(attempt.uuid),
    ensures
        step.action == OpenAction::Finish(Err(error)),
        step.gone@.len() == 0,
        attempt_after == attempt,
        after.tas.contains_key(attempt.uuid) ==> !after.tas[attempt.uuid].instances.contains_key(
            id,
        ) && after.tas[attempt.uuid].flags == r.tas[attempt.uuid].flags
            && after.tas[attempt.uuid].next_instance_id == r.tas[attempt.uuid].next_instance_id,
        other != id && r.tas[attempt.uuid].instances.contains_key(other) ==> after.tas.contains_key(
            attempt.uuid,
        ) && after.tas[attempt.uuid].instances.contains_key(other)
            && after.tas[attempt.uuid].instances[other] == r.tas[attempt.uuid].instances[other],
        after.tas.contains_key(attempt.uuid) && after.tas[attempt.uuid].instances.contains_key(
            other,
        ) ==> r.tas[attempt.uuid].instances.contains_key(other),
        r.tas[attempt.uuid].flags is Some ==> after.tas.contains_key(attempt.uuid),
        r.tas[attempt.uuid].flags is None && (forall|i: u32| #[trigger]
            r.tas[attempt.uuid].instances.contains_key(i) ==> i == id) ==> !after.tas.contains_key(
            attempt.uuid,
        ),
        uuid != attempt.uuid ==> (after.tas.contains_key(uuid) <==> r.tas.contains_key(uuid)),
        uuid != attempt.uuid && r.tas.contains_key(uuid) ==> after.tas[uuid] == r.tas[uuid],
        after.sessions == r.sessions,
{
    let left = r.ta(attempt.uuid).without_instance(id).instances;
    if other != id && r.tas[attempt.uuid].instances.contains_key(other) {
        assert(left.contains_key(other));
        assert(left.dom().contains(other));
        assert(!left.is_empty());
    }
    if forall|i: u32| #[trigger] r.tas[attempt.uuid].instances.contains_key(i) ==> i == id {
        assert(left =~= Map::empty());
    }
}

/// An attempt can be decided on wherever a number is left, wherever an instance
/// can serve it, and wherever one that is starting can be waited for.
pub proof fn law_decisions_are_possible(ta: TaView, awaiting: Option<u32>, id: u32)
    requires
        ta.instances.contains_key(id),
        ta.instances[id].state != InstanceState::Dead,
        awaiting == Some(id) || (ta.flags matches Some(flags) ==> flags.is_single_instance),
    ensures
        ta.can_decide(awaiting),
{
    assert(ta.instance_is(id, ta.instances[id].state));
}

/// The first attempt for a TA of which nothing is known starts its instance
/// number one, and touches no session.
pub proof fn law_first_attempt_starts_the_first_instance(
    r: RegistryView,
    attempt: AttemptView,
    exited: Seq<u32>,
    step: OpenStep,
    after: RegistryView,
    attempt_after: AttemptView,
    session: u32,
)
    requires
        r.polled(attempt, exited, step, after, attempt_after),
        !r.tas.contains_key(attempt.uuid),
    ensures
        step.action == (OpenAction::Spawn { instance_id: 1 }),
        step.gone@.len() == 0,
        attempt_after.awaiting == Some(1u32),
        after.tas.contains_key(attempt.uuid),
        after.tas[attempt.uuid].flags is None,
        after.tas[attempt.uuid].instances.contains_key(1),
        after.sessions.sessions.contains_key(session) <==> r.sessions.sessions.contains_key(
            session,
        ),
{
    let before = r.reaped(attempt.uuid, exited).ta(attempt.uuid);
    if step.gone@.len() > 0 {
        assert(r.ta(attempt.uuid).instances.contains_key(step.gone@[0].0));
    }
    if let OpenAction::Spawn { instance_id } = step.action {
        crate::instance_laws::law_instance_numbers_come_in_turn(before, instance_id, 1);
    }
}

/// A process that was started for an instance that is gone is noted nowhere.
pub proof fn law_late_process_is_not_noted(
    r: RegistryView,
    attempt: AttemptView,
    id: u32,
    pid: u32,
    step: OpenStep,
    after: RegistryView,
    attempt_after: AttemptView,
    other: u32,
)
    requires
        r.steps(
            attempt,
            OpenEvent::Spawned { instance_id: id, pid },
            step,
            after,
            attempt_after,
        ),
        !r.tas.contains_key(attempt.uuid),
    ensures
        step.action == OpenAction::Poll,
        attempt_after == attempt,
        !after.tas[attempt.uuid].instances.contains_key(other),
        after.sessions == r.sessions,
{
}

/// Where a number other than zero is free, an attempt can have its turn, and
/// the TA can be decided on. That is what room for an instance means.
pub proof fn law_free_number_makes_a_turn_possible(
    r: RegistryView,
    attempt: AttemptView,
    exited: Seq<u32>,
    free: u32,
)
    requires
        r.tas.contains_key(attempt.uuid),
        r.tas[attempt.uuid].instances.dom().finite(),
        free != 0,
        !r.tas[attempt.uuid].instances.contains_key(free),
    ensures
        r.tas[attempt.uuid].has_room(),
        r.tas[attempt.uuid].can_decide(attempt.awaiting),
        r.can_take_turn(attempt, exited),
{
    let taken = r.tas[attempt.uuid].instances.dom();
    assert(!taken.contains(free));
    crate::session_laws::law_room_is_a_free_number(taken);
}

} // verus!
