//! What holds of the library as a whole, over its functions together.

use vstd::prelude::*;

use crate::instance::{
    after_close, instance_socket, is_over, one_session_less, one_session_more, InstanceState,
    InstanceView, TaFlags, TaView,
};
use crate::open::{AttemptView, InstanceRoute, OpenAction, OpenDecision, OpenStep};
use crate::registry::RegistryView;
use crate::session::{belongs_to, BindingView, SessionView, SessionsView};
use crate::text::{decimal, digits_value, is_digit, is_u64_text, unsigned_digits};

verus! {

/// A session that is bound gets an id that is not zero and that no other
/// session has. It is found under that id, open, with the binding that was
/// given, and every other session is found as before.
pub proof fn law_bound_session_is_found(s: SessionsView, binding: BindingView, id: u32)
    requires
        s.wf(),
        s.is_next_id(id),
    ensures
        id != 0,
        !s.sessions.contains_key(id),
        s.bound(binding, id).wf(),
        s.bound(binding, id).sessions.contains_key(id),
        s.bound(binding, id).sessions[id].state is Open,
        s.bound(binding, id).sessions[id].binding == (BindingView {
            generation: s.next_bound_generation(id),
            ..binding
        }),
        forall|other: u32|
            other != id ==> (#[trigger] s.bound(binding, id).sessions.contains_key(other)
                <==> s.sessions.contains_key(other)) && (s.sessions.contains_key(other)
                ==> s.bound(binding, id).sessions[other] == s.sessions[other]),
{
}

/// Two sessions bound one after the other get different ids and different
/// generations, even where the two bindings are the same. Each is found under
/// its own id, on the instance that it was bound to.
pub proof fn law_bound_ids_differ(
    s: SessionsView,
    first: BindingView,
    id1: u32,
    second: BindingView,
    id2: u32,
)
    requires
        s.wf(),
        s.is_next_id(id1),
        s.bound(first, id1).is_next_id(id2),
    ensures
        id1 != id2,
        ({
            let after = s.bound(first, id1).bound(second, id2).sessions;
            let (a, b) = (after[id1].binding, after[id2].binding);
            &&& after.contains_key(id1) && after.contains_key(id2)
            &&& a == (BindingView { generation: a.generation, ..first })
            &&& b == (BindingView { generation: b.generation, ..second })
            &&& a.generation != b.generation
        }),
{
    assert(s.bound(first, id1).sessions.contains_key(id1));
}

/// The ids were given out, in this order, to sessions with these bindings.
pub open spec fn binds_in_turn(s: SessionsView, bindings: Seq<BindingView>, ids: Seq<u32>) -> bool
    decreases ids.len(),
{
    bindings.len() == ids.len() && (ids.len() > 0 ==> s.is_next_id(ids.first()) && binds_in_turn(
        s.bound(bindings.first(), ids.first()),
        bindings.drop_first(),
        ids.drop_first(),
    ))
}

/// However many sessions are bound, no two of them get the same id, none gets
/// zero, and none gets the id of a session that was there before.
pub proof fn law_ids_are_unique(s: SessionsView, bindings: Seq<BindingView>, ids: Seq<u32>)
    requires
        s.wf(),
        binds_in_turn(s, bindings, ids),
    ensures
        ids.no_duplicates(),
        !ids.contains(0),
        forall|i: int| 0 <= i < ids.len() ==> !s.sessions.contains_key(#[trigger] ids[i]),
    decreases ids.len(),
{
    if ids.len() > 0 {
        let next = s.bound(bindings.first(), ids.first());
        let rest = ids.drop_first();
        law_bound_session_is_found(s, bindings.first(), ids.first());
        law_ids_are_unique(next, bindings.drop_first(), rest);
        assert forall|i: int| 1 <= i < ids.len() implies #[trigger] ids[i] == rest[i - 1] && rest[
            i - 1] != 0 && ids[i] != ids[0] && !s.sessions.contains_key(ids[i]) by {
            assert(rest.contains(rest[i - 1]));
            assert(!next.sessions.contains_key(rest[i - 1]));
            assert(next.sessions.contains_key(ids.first()));
        }
    }
}

/// Dropping a session undoes binding it.
pub proof fn law_unbind_undoes_bind(s: SessionsView, binding: BindingView, id: u32)
    requires
        s.wf(),
        s.is_next_id(id),
    ensures
        s.bound(binding, id).unbound(id).sessions == s.sessions,
{
    assert(s.bound(binding, id).unbound(id).sessions =~= s.sessions);
}

/// A session that began to close stays so, and keeps its binding: it takes no
/// command any more, and cannot be closed again.
pub proof fn law_closing_is_final(session: SessionView)
    ensures
        !(session.closed().state is Open),
        session.closed().closed() == session.closed(),
        session.closed().binding == session.binding,
{
}

/// When a session begins to close, it stays in place with its binding, closing
/// it again changes nothing, and the other sessions are as they were.
pub proof fn law_closing_hits_one_session(s: SessionsView, id: u32, other: u32)
    requires
        s.wf(),
        s.sessions.contains_key(id),
    ensures
        s.closing(id).wf(),
        s.closing(id).sessions.contains_key(id),
        s.closing(id).sessions[id].state is Closing,
        !s.closing(id).is_open(id),
        s.closing(id).sessions[id].binding == s.sessions[id].binding,
        s.closing(id).closing(id) == s.closing(id),
        other != id ==> (s.closing(id).sessions.contains_key(other) <==> s.sessions.contains_key(
            other,
        )) && s.closing(id).sessions[other] == s.sessions[other],
{
    assert(s.closing(id).closing(id).sessions =~= s.closing(id).sessions);
}

/// When an instance is given up, exactly its own sessions go.
pub proof fn law_invalidation_hits_one_instance(
    s: SessionsView,
    uuid: Seq<char>,
    instance_id: u32,
    id: u32,
)
    requires
        s.sessions.contains_key(id),
    ensures
        s.invalidated(uuid, instance_id).sessions.contains_key(id) <==> !belongs_to(
            s.sessions[id],
            uuid,
            instance_id,
        ),
        s.invalidated(uuid, instance_id).sessions.contains_key(id) ==> s.invalidated(
            uuid,
            instance_id,
        ).sessions[id] == s.sessions[id],
{
}

/// Whatever is done for one TA, what is known of another stays the same.
pub proof fn law_tas_are_independent(
    r: RegistryView,
    uuid: Seq<char>,
    other: Seq<char>,
    ta: TaView,
    instance_id: u32,
    exited: Seq<u32>,
    binding: BindingView,
    id: u32,
)
    requires
        uuid != other,
        binding.uuid == uuid,
    ensures
        r.with_ta(uuid, ta).ta(other) == r.ta(other),
        r.with_known_ta(uuid, ta).ta(other) == r.ta(other),
        r.reaped(uuid, exited).ta(other) == r.ta(other),
        r.instance_lost(uuid, instance_id).ta(other) == r.ta(other),
        r.rolled_back(uuid, instance_id).ta(other) == r.ta(other),
        r.session_bound(binding, id).ta(other) == r.ta(other),
{
}

/// An instance that does not answer is dead afterwards and has no sessions;
/// the sessions of all others stay.
pub proof fn law_lost_instance_has_no_sessions(
    r: RegistryView,
    uuid: Seq<char>,
    instance_id: u32,
    id: u32,
)
    ensures
        r.ta(uuid).instances.contains_key(instance_id) ==> r.instance_lost(uuid, instance_id).ta(
            uuid,
        ).instance_is(instance_id, InstanceState::Dead),
        r.instance_lost(uuid, instance_id).sessions.sessions.contains_key(id)
            <==> r.sessions.sessions.contains_key(id) && !belongs_to(
            r.sessions.sessions[id],
            uuid,
            instance_id,
        ),
{
}

/// When the instances that are over are taken out, none of them is left, the
/// others stay as they were, and the sessions that go are those of the
/// instances that went.
pub proof fn law_reaping_takes_what_is_over(
    r: RegistryView,
    uuid: Seq<char>,
    exited: Seq<u32>,
    instance_id: u32,
    id: u32,
)
    requires
        r.ta(uuid).instances.contains_key(instance_id),
    ensures
        r.reaped(uuid, exited).ta(uuid).instances.contains_key(instance_id) <==> !is_over(
            r.ta(uuid).instances[instance_id],
            instance_id,
            exited,
        ),
        r.reaped(uuid, exited).ta(uuid).instances.contains_key(instance_id) ==> r.reaped(
            uuid,
            exited,
        ).ta(uuid).instances[instance_id] == r.ta(uuid).instances[instance_id],
        r.sessions.sessions.contains_key(id) && belongs_to(
            r.sessions.sessions[id],
            uuid,
            instance_id,
        ) ==> (r.reaped(uuid, exited).sessions.sessions.contains_key(id) <==> r.reaped(
            uuid,
            exited,
        ).ta(uuid).instances.contains_key(instance_id)),
        r.sessions.sessions.contains_key(id) && r.sessions.sessions[id].binding.uuid != uuid
            ==> r.reaped(uuid, exited).sessions.sessions.contains_key(id),
{
}

/// Once the instances that are over are taken out, nothing is left to be taken
/// out: a decision that can be taken then can be taken on the next turn.
pub proof fn law_reaping_is_done_once(
    r: RegistryView,
    attempt: AttemptView,
    exited: Seq<u32>,
)
    ensures
        ({
            let reaped = r.reaped(attempt.uuid, exited);
            let ta = reaped.ta(attempt.uuid);
            &&& ta.reaped(Seq::empty()) == ta
            &&& ta.can_decide(attempt.awaiting) ==> reaped.can_take_turn(attempt, Seq::empty())
        }),
{
    let ta = r.reaped(attempt.uuid, exited).ta(attempt.uuid);
    assert(ta.reaped(Seq::empty()).instances =~= ta.instances);
}

/// A closed session takes back what the opened one counted.
pub proof fn law_close_undoes_open(instance: InstanceView)
    requires
        instance.active_sessions < u32::MAX,
    ensures
        one_session_less(one_session_more(instance)) == instance,
{
}

/// A session that is opened, dropped and closed again on a kept instance leaves
/// no trace: the instances, their session counts and the other sessions are
/// as they were.
pub proof fn law_session_leaves_no_trace(
    r: RegistryView,
    binding: BindingView,
    id: u32,
    flags: TaFlags,
)
    requires
        r.sessions.wf(),
        r.sessions.is_next_id(id),
        r.tas.contains_key(binding.uuid),
        r.ta(binding.uuid).flags == Some(flags),
        flags.is_single_instance,
        flags.is_instance_keep_alive,
        r.ta(binding.uuid).instances.contains_key(binding.instance_id),
        r.ta(binding.uuid).instances[binding.instance_id].active_sessions < u32::MAX,
    ensures
        ({
            let open = r.session_bound(binding, id);
            let dropped = RegistryView { sessions: open.sessions.unbound(id), ..open };
            let closed = dropped.with_known_ta(
                binding.uuid,
                dropped.ta(binding.uuid).session_closed(binding.instance_id),
            );
            &&& closed.tas == r.tas
            &&& closed.sessions.sessions == r.sessions.sessions
        }),
{
    let uuid = binding.uuid;
    let ta = r.ta(uuid);
    law_unbind_undoes_bind(r.sessions, binding, id);
    let open = r.session_bound(binding, id);
    let again = open.ta(uuid).session_closed(binding.instance_id);
    assert(again.instances =~= ta.instances);
    assert(r.tas.insert(uuid, open.ta(uuid)).insert(uuid, again) =~= r.tas);
}

/// A single instance that is kept alive is never retired by a closed session.
pub proof fn law_kept_instance_stays(instance: InstanceView, flags: TaFlags)
    requires
        flags.is_single_instance,
        flags.is_instance_keep_alive,
    ensures
        after_close(instance, flags) == one_session_less(instance),
{
}

/// A single instance that is not kept alive is retired with its last session,
/// and not before.
pub proof fn law_last_session_retires(instance: InstanceView, flags: TaFlags)
    requires
        flags.is_single_instance,
        !flags.is_instance_keep_alive,
        !(instance.state is Dead),
    ensures
        after_close(instance, flags).state is Dead <==> instance.active_sessions <= 1,
        instance.active_sessions > 1 ==> after_close(instance, flags) == one_session_less(instance),
{
}

/// An instance that serves one session only is retired when that is closed.
pub proof fn law_own_instance_retires(instance: InstanceView, flags: TaFlags)
    requires
        !flags.is_single_instance,
    ensures
        after_close(instance, flags).state is Dead,
{
}

/// The flags that a TA first registered with stand.
pub proof fn law_first_flags_stand(
    ta: TaView,
    uuid: Seq<char>,
    id1: u32,
    path1: Seq<char>,
    flags1: TaFlags,
    id2: u32,
    path2: Seq<char>,
    flags2: TaFlags,
)
    ensures
        ta.registered(uuid, id1, path1, flags1).registered(uuid, id2, path2, flags2).flags
            == ta.registered(uuid, id1, path1, flags1).flags,
{
}

/// An instance that registers before its process is noted stays ready, on the
/// socket that it named.
pub proof fn law_early_registration_counts(
    ta: TaView,
    uuid: Seq<char>,
    instance_id: u32,
    path: Seq<char>,
    flags: TaFlags,
    pid: u32,
)
    ensures
        ta.registered(uuid, instance_id, path, flags).spawned(instance_id, pid).instance_is(
            instance_id,
            InstanceState::Ready,
        ),
        ta.registered(uuid, instance_id, path, flags).spawned(
            instance_id,
            pid,
        ).instances[instance_id].socket_path == path,
{
}

/// A TA that is not known to run one process for each session gets no second
/// instance while one is ready or starting.
pub proof fn law_no_second_instance(
    ta: TaView,
    uuid: Seq<char>,
    awaiting: Option<u32>,
    decision: OpenDecision,
    after: TaView,
    instance_id: u32,
)
    requires
        ta.decides(uuid, awaiting, decision, after),
        !ta.is_multi_instance(),
        ta.instance_is(instance_id, InstanceState::Ready) || ta.instance_is(
            instance_id,
            InstanceState::Starting,
        ),
    ensures
        !(decision is Spawn),
        after == ta,
        ta.instance_is(instance_id, InstanceState::Ready) ==> decision is Return,
{
}

/// Where a TA runs one process for each session, a session is only ever opened
/// on the instance that was started for it.
pub proof fn law_session_gets_its_own_instance(
    ta: TaView,
    uuid: Seq<char>,
    awaiting: Option<u32>,
    decision: OpenDecision,
    after: TaView,
)
    requires
        ta.decides(uuid, awaiting, decision, after),
        ta.is_multi_instance(),
    ensures
        decision matches OpenDecision::Return(route) ==> awaiting == Some(route.instance_id),
        awaiting is None ==> decision is Spawn,
{
}

/// A new instance gets a number that is not zero and that no instance of the
/// TA has. So two attempts that both start one wait for different instances.
pub proof fn law_new_instance_is_new(
    ta: TaView,
    uuid: Seq<char>,
    awaiting: Option<u32>,
    decision: OpenDecision,
    after: TaView,
)
    requires
        ta.decides(uuid, awaiting, decision, after),
    ensures
        decision matches OpenDecision::Spawn { instance_id } ==> instance_id != 0
            && !ta.instances.contains_key(instance_id) && after.instance_is(
            instance_id,
            InstanceState::Starting,
        ) && forall|other: u32| #[trigger]
            ta.instances.contains_key(other) ==> after.instances.contains_key(other)
                && after.instances[other] == ta.instances[other],
{
}

/// Which decision is right is settled by the TA alone: of two right ones, both
/// give a route, or both wait, or both start the same new instance.
pub proof fn law_decision_is_settled(
    ta: TaView,
    uuid: Seq<char>,
    awaiting: Option<u32>,
    d1: OpenDecision,
    after1: TaView,
    d2: OpenDecision,
    after2: TaView,
)
    requires
        ta.decides(uuid, awaiting, d1, after1),
        ta.decides(uuid, awaiting, d2, after2),
    ensures
        d1 is Return <==> d2 is Return,
        d1 is Wait <==> d2 is Wait,
        d1 is Spawn <==> d2 is Spawn,
        d1 matches OpenDecision::Spawn { instance_id } ==> d1 == d2,
        after1 == after2,
{
    assert(!(ta.can_serve(awaiting) && ta.must_wait(awaiting)));
    if let OpenDecision::Spawn { instance_id: a } = d1 {
        if let OpenDecision::Spawn { instance_id: b } = d2 {
            crate::ids::law_first_free_is_unique(
                ta.instances.dom(),
                crate::instance::at_least_one(ta.next_instance_id),
                a,
                b,
            );
        }
    }
}

/// The route that an attempt ends with leads to an instance of its TA that has
/// registered and is not over, on the socket that the instance named. Nothing
/// else changes than that instances that were over are taken out.
pub proof fn law_route_leads_to_live_instance(
    r: RegistryView,
    attempt: AttemptView,
    exited: Seq<u32>,
    step: OpenStep,
    after: RegistryView,
    attempt_after: AttemptView,
    route: InstanceRoute,
)
    requires
        r.polled(attempt, exited, step, after, attempt_after),
        step.action == OpenAction::Finish(Ok(route)),
    ensures
        route.uuid@ == attempt.uuid,
        r.ta(attempt.uuid).instance_is(route.instance_id, InstanceState::Ready),
        !is_over(
            r.ta(attempt.uuid).instances[route.instance_id],
            route.instance_id,
            exited,
        ),
        route.socket_path@ == r.ta(attempt.uuid).instances[route.instance_id].socket_path,
        after == r.reaped(attempt.uuid, exited),
{
    let reaped = r.reaped(attempt.uuid, exited);
    assert(reaped.tas.insert(attempt.uuid, reaped.ta(attempt.uuid)) =~= reaped.tas);
}

/// An instance that was retired serves no session any more: whatever an
/// attempt does next, the instance is taken out, with its sessions.
pub proof fn law_retired_instance_is_taken_out(
    r: RegistryView,
    attempt: AttemptView,
    exited: Seq<u32>,
    step: OpenStep,
    after: RegistryView,
    attempt_after: AttemptView,
    instance_id: u32,
    id: u32,
)
    requires
        r.polled(attempt, exited, step, after, attempt_after),
        r.ta(attempt.uuid).instance_is(instance_id, InstanceState::Dead),
    ensures
        step.action matches OpenAction::Finish(Ok(route)) ==> route.instance_id != instance_id,
        !after.ta(attempt.uuid).instance_is(instance_id, InstanceState::Dead),
        after.sessions.sessions.contains_key(id) ==> !belongs_to(
            after.sessions.sessions[id],
            attempt.uuid,
            instance_id,
        ),
        exists|i: int|
            0 <= i < step.gone@.len() && (#[trigger] step.gone@[i]).0 == instance_id
                && step.gone@[i].1@ == r.ta(attempt.uuid).instances[instance_id].socket_path,
{
    let ta = r.ta(attempt.uuid);
    assert(ta.instances.contains_key(instance_id) && is_over(
        ta.instances[instance_id],
        instance_id,
        exited,
    ));
}

/// Once an instance has registered and is not over, the next turn of an attempt
/// that may use it ends with a route: of the attempt that waits for it, and of
/// any attempt where the TA does not run one process for each session. The
/// route leads to this very instance, on the socket that it named, where the
/// TA does run one process for each session, or where no other is ready.
pub proof fn law_registration_ends_waiting(
    r: RegistryView,
    attempt: AttemptView,
    instance_id: u32,
    path: Seq<char>,
    flags: TaFlags,
    exited: Seq<u32>,
    step: OpenStep,
    after: RegistryView,
    attempt_after: AttemptView,
)
    requires
        ({
            let ta = r.ta(attempt.uuid).registered(attempt.uuid, instance_id, path, flags);
            &&& attempt.awaiting == Some(instance_id) || !ta.is_multi_instance()
            &&& !is_over(ta.instances[instance_id], instance_id, exited)
            &&& r.with_ta(attempt.uuid, ta).polled(attempt, exited, step, after, attempt_after)
        }),
    ensures
        step.action matches OpenAction::Finish(Ok(route)) && route.uuid@ == attempt.uuid && ({
            let ta = r.ta(attempt.uuid).registered(attempt.uuid, instance_id, path, flags);
            let only_one = forall|other: u32| #[trigger]
                ta.instance_is(other, InstanceState::Ready) ==> other == instance_id || is_over(
                    ta.instances[other],
                    other,
                    exited,
                );
            ta.is_multi_instance() || only_one ==> route.instance_id == instance_id
                && route.socket_path@ == path
        }),
{
    let ta = r.ta(attempt.uuid).registered(attempt.uuid, instance_id, path, flags);
    let now = r.with_ta(attempt.uuid, ta).reaped(attempt.uuid, exited).ta(attempt.uuid);
    assert(now.instance_is(instance_id, InstanceState::Ready));
    if let OpenAction::Finish(Ok(route)) = step.action {
        assert(ta.instance_is(route.instance_id, InstanceState::Ready));
    }
}

/// A start that fails leaves nothing behind: the TA has the instances and the
/// flags that it had before, and no later attempt has to wait because of it.
pub proof fn law_failed_spawn_leaves_nothing(
    r: RegistryView,
    attempt: AttemptView,
    exited: Seq<u32>,
    step: OpenStep,
    after: RegistryView,
    attempt_after: AttemptView,
    instance_id: u32,
    later: Option<u32>,
)
    requires
        r.polled(attempt, exited, step, after, attempt_after),
        step.action == (OpenAction::Spawn { instance_id }),
    ensures
        ({
            let uuid = attempt.uuid;
            let before = r.reaped(uuid, exited).ta(uuid);
            let back = after.rolled_back(uuid, instance_id).ta(uuid);
            &&& back.instances == before.instances
            &&& back.flags == before.flags
            &&& back.can_serve(later) == before.can_serve(later)
            &&& back.must_wait(later) == before.must_wait(later)
            &&& !back.can_serve(None)
            &&& !back.must_wait(None)
            &&& after.rolled_back(uuid, instance_id).sessions == r.reaped(uuid, exited).sessions
        }),
{
    let uuid = attempt.uuid;
    let before = r.reaped(uuid, exited).ta(uuid);
    let back = after.rolled_back(uuid, instance_id).ta(uuid);
    assert(after.ta(uuid).without_instance(instance_id).instances =~= before.instances);
    assert(back.instances =~= before.instances);
    assert forall|id: u32, state: InstanceState| #[trigger]
        back.instance_is(id, state) == before.instance_is(id, state) by {}
    assert forall|state: InstanceState| #[trigger]
        back.some_instance_is(state) == before.some_instance_is(state) by {
        if before.some_instance_is(state) {
            let id = choose|id: u32| before.instance_is(id, state);
            assert(back.instance_is(id, state));
        }
        if back.some_instance_is(state) {
            let id = choose|id: u32| back.instance_is(id, state);
            assert(before.instance_is(id, state));
        }
    }
}

/// Waiting comes to an end: an attempt never sleeps past the time within which
/// an instance has to register, and gives up when that is over.
pub proof fn law_waiting_is_bounded(r: RegistryView, attempt: AttemptView, elapsed_nanos: u128)
    ensures
        r.action_at(attempt, elapsed_nanos) matches OpenAction::Sleep { nanos } ==> 0 < nanos
            && elapsed_nanos + nanos == r.register_timeout_nanos(),
        r.action_at(attempt, elapsed_nanos) is Finish <==> elapsed_nanos
            >= r.register_timeout_nanos(),
{
}

/// A number is read back from its decimal text.
pub proof fn law_decimal_read_back(n: nat)
    ensures
        decimal(n).len() > 0,
        forall|i: int| 0 <= i < decimal(n).len() ==> is_digit(#[trigger] decimal(n)[i]),
        digits_value(decimal(n)) == n,
        unsigned_digits(decimal(n)) == decimal(n),
        n <= u64::MAX ==> is_u64_text(decimal(n)),
    decreases n,
{
    if n < 10 {
        assert(decimal(n).drop_last() =~= Seq::empty());
        assert(digits_value(Seq::empty()) == 0);
    } else {
        law_decimal_read_back(n / 10);
        assert(decimal(n).drop_last() =~= decimal(n / 10));
        assert(decimal(n)[0] == decimal(n / 10)[0]);
    }
    assert(is_digit(decimal(n)[0]));
}

/// No two instances, of one TA or of two, have the same socket by default.
pub proof fn law_instance_sockets_differ(uuid1: Seq<char>, a: u32, uuid2: Seq<char>, b: u32)
    requires
        instance_socket(uuid1, a) == instance_socket(uuid2, b),
    ensures
        uuid1 == uuid2,
        a == b,
{
    reveal_strlit("/tmp/");
    reveal_strlit(".");
    reveal_strlit(".sock");
    let s = instance_socket(uuid1, a);
    let t = instance_socket(uuid2, b);
    let da = decimal(a as nat);
    let db = decimal(b as nat);
    law_decimal_read_back(a as nat);
    law_decimal_read_back(b as nat);
    let m = uuid1.len() as int;
    let n = uuid2.len() as int;
    assert(s.len() == 11 + m + da.len() && t.len() == 11 + n + db.len());
    assert(s[5 + m] == '.' && t[5 + n] == '.');
    if m > n {
        assert(t[5 + m] == db[m - n - 1]);
        assert(is_digit(db[m - n - 1]));
    } else if m < n {
        assert(s[5 + n] == da[n - m - 1]);
        assert(is_digit(da[n - m - 1]));
    }
    assert(uuid1 =~= s.subrange(5, 5 + m));
    assert(uuid2 =~= t.subrange(5, 5 + n));
    assert(da =~= s.subrange(6 + m, 6 + m + da.len()));
    assert(db =~= t.subrange(6 + n, 6 + n + db.len()));
}

} // verus!
