//! What each change of the table of sessions does to the session that it is
//! about and to every other.

use vstd::prelude::*;

use crate::ids::{first_free, has_free};
use crate::session::{BindingView, SessionState, SessionView, SessionsView};

verus! {

/// A number is left exactly where some number other than zero is not taken.
pub proof fn law_room_is_a_free_number(taken: Set<u32>)
    requires
        taken.finite(),
    ensures
        has_free(taken) <==> exists|id: u32| id != 0 && !(#[trigger] taken.contains(id)),
{
    if has_free(taken) {
        let id = crate::ids::lemma_free_exists(taken);
        assert(!taken.contains(id));
    }
    if exists|id: u32| id != 0 && !(#[trigger] taken.contains(id)) {
        let free = choose|id: u32| id != 0 && !(#[trigger] taken.contains(id));
        let all = Set::range_inclusive(1u32, u32::MAX);
        vstd::set_lib::range_set_properties(1u32, u32::MAX);
        assert(taken.remove(0).subset_of(all.remove(free)));
        vstd::set_lib::lemma_len_subset(taken.remove(0), all.remove(free));
    }
}

/// The first free number is not zero and not taken. From where the search
/// starts up to it, or up to the end and then from one up to it, all are taken.
pub proof fn law_first_free_is_the_first(taken: Set<u32>, start: u32, id: u32, other: u32)
    requires
        first_free(taken, start, id),
    ensures
        id != 0,
        !taken.contains(id),
        start <= id && start <= other < id && other != 0 ==> taken.contains(other),
        id < start && (start <= other || 0 < other < id) ==> taken.contains(other),
{
    if other != 0 && crate::ids::ring_distance(start, other) < crate::ids::ring_distance(
        start,
        id,
    ) {
        assert(taken.contains(other));
    }
}

/// The id of a new session is the first one from the counter on that is neither
/// zero nor in use.
pub proof fn law_session_ids_come_in_turn(s: SessionsView, id: u32, other: u32)
    requires
        s.is_next_id(id),
    ensures
        id != 0,
        !s.sessions.contains_key(id),
        s.next_session_id <= id && s.next_session_id <= other < id && other != 0
            ==> s.sessions.contains_key(other),
        id < s.next_session_id && (s.next_session_id <= other || 0 < other < id)
            ==> s.sessions.contains_key(other),
{
    law_first_free_is_the_first(s.sessions.dom(), s.next_session_id, id, other);
}

/// A session that is bound is open, with the binding that was given, but for
/// the generation. The counter goes on behind its id. A generation is used up
/// for each id that was tried. All other sessions are as they were.
pub proof fn law_binding_enters_one_session(
    s: SessionsView,
    binding: BindingView,
    id: u32,
    other: u32,
)
    requires
        s.is_next_id(id),
    ensures
        ({
            let after = s.bound(binding, id);
            let given = after.sessions[id].binding.generation;
            // The ids tried before this one; zero is not tried.
            let tried = if id < s.next_session_id {
                0xffff_ffff - s.next_session_id + id
            } else if s.next_session_id == 0 {
                id - 1
            } else {
                id - s.next_session_id
            };
            &&& after.sessions.contains_key(id)
            &&& after.sessions[id].state == SessionState::Open
            &&& after.sessions[id].binding.uuid == binding.uuid
            &&& after.sessions[id].binding.instance_id == binding.instance_id
            &&& after.sessions[id].binding.local_session_id == binding.local_session_id
            &&& after.sessions[id].binding.socket_path == binding.socket_path
            &&& given as int == (s.next_generation + tried) % 0x1_0000_0000_0000_0000
            &&& after.next_generation as int == (given + 1) % 0x1_0000_0000_0000_0000
            &&& after.next_session_id as int == (id + 1) % 0x1_0000_0000
            &&& other != id ==> (after.sessions.contains_key(other) <==> s.sessions.contains_key(
                other,
            ))
            &&& other != id && s.sessions.contains_key(other) ==> after.sessions[other]
                == s.sessions[other]
        }),
{
}

/// A session that is dropped is gone; all others and the counters are as they
/// were.
pub proof fn law_dropping_touches_one_session(s: SessionsView, id: u32, other: u32)
    ensures
        !s.unbound(id).sessions.contains_key(id),
        other != id ==> (s.unbound(id).sessions.contains_key(other) <==> s.sessions.contains_key(
            other,
        )),
        other != id && s.sessions.contains_key(other) ==> s.unbound(id).sessions[other]
            == s.sessions[other],
        s.unbound(id).next_session_id == s.next_session_id,
        s.unbound(id).next_generation == s.next_generation,
{
}

/// A session is open where it is there and has not begun to close. Once it has
/// begun to close it is there, not open, with the binding that it had; all
/// others and the counters are as they were.
pub proof fn law_closing_touches_one_session(s: SessionsView, id: u32, other: u32)
    requires
        s.sessions.contains_key(id),
    ensures
        s.is_open(id) <==> s.sessions[id].state == SessionState::Open,
        s.closing(id).sessions.contains_key(id),
        s.closing(id).sessions[id].state == SessionState::Closing,
        !s.closing(id).is_open(id),
        s.closing(id).sessions[id].binding.uuid == s.sessions[id].binding.uuid,
        s.closing(id).sessions[id].binding.instance_id == s.sessions[id].binding.instance_id,
        s.closing(id).sessions[id].binding.local_session_id
            == s.sessions[id].binding.local_session_id,
        s.closing(id).sessions[id].binding.socket_path == s.sessions[id].binding.socket_path,
        s.closing(id).sessions[id].binding.generation == s.sessions[id].binding.generation,
        other != id ==> (s.closing(id).sessions.contains_key(other) <==> s.sessions.contains_key(
            other,
        )),
        other != id && s.sessions.contains_key(other) ==> s.closing(id).sessions[other]
            == s.sessions[other],
        other != id ==> s.closing(id).is_open(other) == s.is_open(other),
        s.closing(id).next_session_id == s.next_session_id,
        s.closing(id).next_generation == s.next_generation,
{
}

/// There is no open session where there is none.
pub proof fn law_absent_session_is_not_open(s: SessionsView, id: u32)
    requires
        !s.sessions.contains_key(id),
    ensures
        !s.is_open(id),
{
}

/// When an instance is given up, a session goes exactly where both its TA and
/// its instance are the ones named, open or closing. All others and the
/// counters are as they were.
pub proof fn law_giving_up_drops_one_instances_sessions(
    s: SessionsView,
    uuid: Seq<char>,
    instance_id: u32,
    id: u32,
)
    ensures
        s.invalidated(uuid, instance_id).sessions.contains_key(id) <==> {
            &&& s.sessions.contains_key(id)
            &&& s.sessions[id].binding.uuid != uuid || s.sessions[id].binding.instance_id
                != instance_id
        },
        s.invalidated(uuid, instance_id).sessions.contains_key(id) ==> s.invalidated(
            uuid,
            instance_id,
        ).sessions[id] == s.sessions[id],
        s.invalidated(uuid, instance_id).next_session_id == s.next_session_id,
        s.invalidated(uuid, instance_id).next_generation == s.next_generation,
{
}

/// Closing changes the state of a session and nothing else.
pub proof fn law_closed_entry_keeps_its_binding(session: SessionView)
    ensures
        session.closed().state == SessionState::Closing,
        session.closed().binding == session.binding,
{
}

/// There is room for a session exactly where some id other than zero is not in
/// use.
pub proof fn law_room_for_a_session(s: SessionsView)
    requires
        s.wf(),
    ensures
        s.has_room() <==> exists|id: u32| id != 0 && !(#[trigger] s.sessions.contains_key(id)),
{
    law_room_is_a_free_number(s.sessions.dom());
    if s.has_room() {
        let id = choose|id: u32| id != 0 && !(#[trigger] s.sessions.dom().contains(id));
        assert(!s.sessions.contains_key(id));
    }
    if exists|id: u32| id != 0 && !(#[trigger] s.sessions.contains_key(id)) {
        let id = choose|id: u32| id != 0 && !(#[trigger] s.sessions.contains_key(id));
        assert(!s.sessions.dom().contains(id));
    }
}

} // verus!
