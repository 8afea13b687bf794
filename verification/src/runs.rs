//! What holds over any number of operations, in any order.

use vstd::prelude::*;

use crate::bytes::{u32_value, ByteOrder};
use crate::connection::{
    is_whole, relayed, ConnectionAction, ConnectionEnd, ConnectionEvent, ConnectionStep,
    ConnectionView, Stage,
};
use crate::ids::ring_distance;
use crate::instance::{is_over, InstanceView, TaFlags};
use crate::open::{AttemptView, InstanceRoute, OpenAction, OpenEvent, OpenStep};
use crate::packet::{decoded_request, framed, session_socket, KindView};
use crate::registry::RegistryView;
use crate::session::{taken_ids_passed, BindingView, SessionsView};

verus! {

/// Something done with the table of sessions.
pub enum TableOp {
    Bind { binding: BindingView, id: u32 },
    Unbind { id: u32 },
    BeginClose { id: u32 },
    Invalidate { uuid: Seq<char>, instance_id: u32 },
}

impl TableOp {
    /// The table after this was done.
    pub open spec fn apply(self, s: SessionsView) -> SessionsView {
        match self {
            TableOp::Bind { binding, id } => s.bound(binding, id),
            TableOp::Unbind { id } => s.unbound(id),
            TableOp::BeginClose { id } => if s.is_open(id) {
                s.closing(id)
            } else {
                s
            },
            TableOp::Invalidate { uuid, instance_id } => s.invalidated(uuid, instance_id),
        }
    }

    /// A session is bound to the id that is next.
    pub open spec fn is_right(self, s: SessionsView) -> bool {
        self matches TableOp::Bind { id, .. } ==> s.is_next_id(id)
    }

    /// The number of ids that are tried, the one given out among them.
    pub open spec fn ids_tried(self, s: SessionsView) -> int {
        match self {
            TableOp::Bind { id, .. } => ring_distance(s.next_session_id, id) + 1,
            _ => 0,
        }
    }

    /// The number of generations that are used up.
    pub open spec fn generations_used(self, s: SessionsView) -> int {
        match self {
            TableOp::Bind { id, .. } => taken_ids_passed(s.next_session_id, id) + 1,
            _ => 0,
        }
    }
}

/// The table after the first `k` operations.
pub open spec fn table_after(s: SessionsView, ops: Seq<TableOp>, k: int) -> SessionsView
    decreases k,
{
    if k <= 0 {
        s
    } else {
        ops[k - 1].apply(table_after(s, ops, k - 1))
    }
}

/// Every session is bound to the id that is next.
pub open spec fn is_table_run(s: SessionsView, ops: Seq<TableOp>) -> bool {
    forall|k: int| 0 <= k < ops.len() ==> (#[trigger] ops[k]).is_right(table_after(s, ops, k))
}

/// The number of ids that the first `k` operations try.
pub open spec fn ids_tried(s: SessionsView, ops: Seq<TableOp>, k: int) -> int
    decreases k,
{
    if k <= 0 {
        0
    } else {
        ids_tried(s, ops, k - 1) + ops[k - 1].ids_tried(table_after(s, ops, k - 1))
    }
}

/// The number of generations that the first `k` operations use up.
pub open spec fn generations_used(s: SessionsView, ops: Seq<TableOp>, k: int) -> int
    decreases k,
{
    if k <= 0 {
        0
    } else {
        generations_used(s, ops, k - 1) + ops[k - 1].generations_used(table_after(s, ops, k - 1))
    }
}

/// The counters stand where the ids and generations used so far have moved
/// them.
proof fn lemma_counters(s: SessionsView, ops: Seq<TableOp>, k: int)
    requires
        0 <= k <= ops.len(),
    ensures
        table_after(s, ops, k).next_session_id == (s.next_session_id + ids_tried(s, ops, k))
            % 0x1_0000_0000,
        table_after(s, ops, k).next_generation == (s.next_generation + generations_used(s, ops, k))
            % 0x1_0000_0000_0000_0000,
    decreases k,
{
    if k > 0 {
        lemma_counters(s, ops, k - 1);
    }
}

/// The numbers used so far only grow.
proof fn lemma_used_grows(s: SessionsView, ops: Seq<TableOp>, i: int, j: int)
    requires
        0 <= i <= j <= ops.len(),
    ensures
        0 <= ids_tried(s, ops, i) <= ids_tried(s, ops, j),
        0 <= generations_used(s, ops, i) <= generations_used(s, ops, j),
    decreases j,
{
    if i < j {
        lemma_used_grows(s, ops, i, j - 1);
    } else if i > 0 {
        lemma_used_grows(s, ops, i - 1, i - 1);
    }
}

/// The generation that a bound session is entered with.
pub open spec fn generation_given(s: SessionsView, ops: Seq<TableOp>, k: int) -> u64 {
    table_after(s, ops, k + 1).sessions[ops[k]->Bind_id].binding.generation
}

/// Numbers less than a full circle apart are at different places on it.
proof fn lemma_places_differ(start: int, a: int, b: int, circle: int)
    requires
        0 < a < b <= circle,
    ensures
        (start + a - 1) % circle != (start + b - 1) % circle,
{
    let x = start + a - 1;
    let y = start + b - 1;
    if x % circle == y % circle {
        vstd::arithmetic::div_mod::lemma_mod_equivalence(y, x, circle);
        vstd::arithmetic::div_mod::lemma_small_mod((y - x) as nat, circle as nat);
    }
}

/// The id that a bound session gets is the last one that was tried.
proof fn lemma_id_given(s: SessionsView, ops: Seq<TableOp>, k: int)
    requires
        0 <= k < ops.len(),
        ops[k] is Bind,
        is_table_run(s, ops),
    ensures
        ops[k]->Bind_id == (s.next_session_id + ids_tried(s, ops, k + 1) - 1) % 0x1_0000_0000,
        ids_tried(s, ops, k) < ids_tried(s, ops, k + 1),
{
    let next = table_after(s, ops, k).next_session_id;
    let id = ops[k]->Bind_id;
    let passed = ring_distance(next, id);
    lemma_counters(s, ops, k);
    assert(ids_tried(s, ops, k + 1) == ids_tried(s, ops, k) + passed + 1);
    assert(id == (passed + next) % 0x1_0000_0000);
    vstd::arithmetic::div_mod::lemma_add_mod_noop_right(
        passed,
        s.next_session_id + ids_tried(s, ops, k),
        0x1_0000_0000,
    );
}

/// The generation that a bound session gets is the last one that was used.
proof fn lemma_generation_given(s: SessionsView, ops: Seq<TableOp>, k: int)
    requires
        0 <= k < ops.len(),
        ops[k] is Bind,
        is_table_run(s, ops),
    ensures
        generation_given(s, ops, k) == (s.next_generation + generations_used(s, ops, k + 1) - 1)
            % 0x1_0000_0000_0000_0000,
        generations_used(s, ops, k) < generations_used(s, ops, k + 1),
{
    let table = table_after(s, ops, k);
    let id = ops[k]->Bind_id;
    let passed = taken_ids_passed(table.next_session_id, id);
    lemma_counters(s, ops, k);
    assert(ops[k].is_right(table));
    assert(generations_used(s, ops, k + 1) == generations_used(s, ops, k) + passed + 1);
    assert(table_after(s, ops, k + 1) == ops[k].apply(table));
    assert(generation_given(s, ops, k) == table.next_bound_generation(id));
    vstd::arithmetic::div_mod::lemma_add_mod_noop_right(
        passed,
        s.next_generation + generations_used(s, ops, k),
        0x1_0000_0000_0000_0000,
    );
}

/// Of the sessions that are bound over time, whatever else happens in between,
/// no two have the same generation, until all generations were used.
pub proof fn law_generations_are_unique(s: SessionsView, ops: Seq<TableOp>, i: int, j: int)
    requires
        is_table_run(s, ops),
        0 <= i < j < ops.len(),
        ops[i] is Bind,
        ops[j] is Bind,
        generations_used(s, ops, ops.len() as int) <= 0x1_0000_0000_0000_0000,
    ensures
        generation_given(s, ops, i) != generation_given(s, ops, j),
{
    lemma_generation_given(s, ops, i);
    lemma_generation_given(s, ops, j);
    lemma_used_grows(s, ops, i, i);
    lemma_used_grows(s, ops, i + 1, j);
    lemma_used_grows(s, ops, j + 1, ops.len() as int);
    lemma_places_differ(
        s.next_generation as int,
        generations_used(s, ops, i + 1),
        generations_used(s, ops, j + 1),
        0x1_0000_0000_0000_0000,
    );
}

/// An id that was given out is not given out again, not even after its session
/// is gone, until the ids have come full circle.
pub proof fn law_freed_ids_are_not_reused(s: SessionsView, ops: Seq<TableOp>, i: int, j: int)
    requires
        is_table_run(s, ops),
        0 <= i < j < ops.len(),
        ops[i] is Bind,
        ops[j] is Bind,
        ids_tried(s, ops, ops.len() as int) <= 0x1_0000_0000,
    ensures
        ops[i]->Bind_id != ops[j]->Bind_id,
{
    lemma_id_given(s, ops, i);
    lemma_id_given(s, ops, j);
    lemma_used_grows(s, ops, i, i);
    lemma_used_grows(s, ops, i + 1, j);
    lemma_used_grows(s, ops, j + 1, ops.len() as int);
    lemma_places_differ(
        s.next_session_id as int,
        ids_tried(s, ops, i + 1),
        ids_tried(s, ops, j + 1),
        0x1_0000_0000,
    );
}

/// A session that began to close takes no command any more, whatever happens
/// to this session or to others, until its id is bound anew.
pub proof fn law_closed_session_stays_closed(
    s: SessionsView,
    id: u32,
    ops: Seq<TableOp>,
    k: int,
)
    requires
        0 <= k <= ops.len(),
        forall|i: int|
            0 <= i < k ==> !((#[trigger] ops[i]) matches TableOp::Bind { id: bound, .. } && bound
                == id),
    ensures
        !table_after(s.closing(id), ops, k).is_open(id),
    decreases k,
{
    if k > 0 {
        law_closed_session_stays_closed(s, id, ops, k - 1);
    }
}

/// Something done for the sessions of clients.
pub enum SessionOp {
    Bind { binding: BindingView, id: u32 },
    Unbind { id: u32 },
    Close { uuid: Seq<char>, instance_id: u32 },
}

impl SessionOp {
    /// The registry after this was done.
    pub open spec fn apply(self, r: RegistryView) -> RegistryView {
        match self {
            SessionOp::Bind { binding, id } => r.session_bound(binding, id),
            SessionOp::Unbind { id } => RegistryView { sessions: r.sessions.unbound(id), ..r },
            SessionOp::Close { uuid, instance_id } => r.with_known_ta(
                uuid,
                r.ta(uuid).session_closed(instance_id),
            ),
        }
    }

    /// How this changes the number of sessions of an instance.
    pub open spec fn change(self, uuid: Seq<char>, instance_id: u32) -> int {
        match self {
            SessionOp::Bind { binding, .. } => if binding.uuid == uuid && binding.instance_id
                == instance_id {
                1
            } else {
                0
            },
            SessionOp::Unbind { .. } => 0,
            SessionOp::Close { uuid: u, instance_id: i } => if u == uuid && i == instance_id {
                -1
            } else {
                0
            },
        }
    }

    /// Whether there is a session under the id after this was done.
    pub open spec fn holds_after(self, held: bool, id: u32) -> bool {
        match self {
            SessionOp::Bind { id: bound, .. } => held || bound == id,
            SessionOp::Unbind { id: dropped } => held && dropped != id,
            SessionOp::Close { .. } => held,
        }
    }
}

/// The registry after the first `k` operations.
pub open spec fn registry_after(r: RegistryView, ops: Seq<SessionOp>, k: int) -> RegistryView
    decreases k,
{
    if k <= 0 {
        r
    } else {
        ops[k - 1].apply(registry_after(r, ops, k - 1))
    }
}

/// The sessions of an instance that were bound by the first `k` operations,
/// less those that were closed.
pub open spec fn balance(ops: Seq<SessionOp>, uuid: Seq<char>, instance_id: u32, k: int) -> int
    decreases k,
{
    if k <= 0 {
        0
    } else {
        balance(ops, uuid, instance_id, k - 1) + ops[k - 1].change(uuid, instance_id)
    }
}

/// Whether there is a session under the id after the first `k` operations: it
/// was there or was bound, and was not dropped since.
pub open spec fn held_after(held: bool, ops: Seq<SessionOp>, id: u32, k: int) -> bool
    decreases k,
{
    if k <= 0 {
        held
    } else {
        ops[k - 1].holds_after(held_after(held, ops, id, k - 1), id)
    }
}

/// However sessions are opened, dropped and closed, in whatever order, an
/// instance that is kept alive stays in the state that it is in, and counts the
/// sessions that were bound less those that were closed. A session is found
/// exactly where it was bound and not dropped since. So where every session
/// was dropped and closed again, none is found, and the instance is as it was.
pub proof fn law_sessions_balance(
    r: RegistryView,
    ops: Seq<SessionOp>,
    uuid: Seq<char>,
    instance_id: u32,
    flags: TaFlags,
    k: int,
)
    requires
        0 <= k <= ops.len(),
        r.tas.contains_key(uuid),
        r.ta(uuid).flags == Some(flags),
        flags.is_single_instance,
        flags.is_instance_keep_alive,
        r.ta(uuid).instances.contains_key(instance_id),
        forall|i: int|
            0 <= i <= k ==> 0 <= r.ta(uuid).instances[instance_id].active_sessions
                + #[trigger] balance(ops, uuid, instance_id, i) <= u32::MAX,
    ensures
        ({
            let before = r.ta(uuid).instances[instance_id];
            let after = registry_after(r, ops, k);
            &&& after.tas.contains_key(uuid)
            &&& after.ta(uuid).flags == Some(flags)
            &&& after.ta(uuid).instances.contains_key(instance_id)
            &&& after.ta(uuid).instances[instance_id] == (InstanceView {
                active_sessions: (before.active_sessions + balance(
                    ops,
                    uuid,
                    instance_id,
                    k,
                )) as u32,
                ..before
            })
            &&& forall|id: u32| #[trigger]
                after.sessions.sessions.contains_key(id) <==> held_after(
                    r.sessions.sessions.contains_key(id),
                    ops,
                    id,
                    k,
                )
        }),
    decreases k,
{
    if k > 0 {
        law_sessions_balance(r, ops, uuid, instance_id, flags, k - 1);
        let b = balance(ops, uuid, instance_id, k - 1);
        assert(balance(ops, uuid, instance_id, k) == b + ops[k - 1].change(uuid, instance_id));
    }
}

/// One step of an attempt, with the registry as it was before and after.
/// Between two steps others may change the registry.
pub struct Turn {
    pub before: RegistryView,
    pub attempt: AttemptView,
    pub event: OpenEvent,
    pub step: OpenStep,
    pub after: RegistryView,
    pub attempt_after: AttemptView,
}

impl Turn {
    /// The step is right.
    pub open spec fn is_right(self) -> bool {
        self.before.steps(self.attempt, self.event, self.step, self.after, self.attempt_after)
    }

    /// The instance is one of the TA, and is not over.
    pub open spec fn sees(self, instance_id: u32) -> bool {
        let instances = self.before.ta(self.attempt.uuid).instances;
        &&& instances.contains_key(instance_id)
        &&& self.event matches OpenEvent::Polled { exited } ==> !is_over(
            instances[instance_id],
            instance_id,
            exited@,
        )
    }

    /// The step starts an instance that is new: its number is not zero, and no
    /// instance has it.
    pub open spec fn starts(self, instance_id: u32) -> bool {
        &&& self.step.action == (OpenAction::Spawn { instance_id })
        &&& instance_id != 0
        &&& !self.sees(instance_id)
        &&& self.after.ta(self.attempt.uuid).instances.contains_key(instance_id)
    }
}

/// The step goes on with the attempt as the one before has left it; the first
/// begins without an instance.
pub open spec fn goes_on(uuid: Seq<char>, run: Seq<Turn>, i: int) -> bool {
    run[i].attempt == if i == 0 {
        AttemptView { uuid, awaiting: None }
    } else {
        run[i - 1].attempt_after
    }
}

/// The steps of one attempt, from its beginning on.
pub open spec fn is_attempt(uuid: Seq<char>, run: Seq<Turn>) -> bool {
    forall|i: int|
        0 <= i < run.len() ==> #[trigger] goes_on(uuid, run, i) && run[i].is_right()
}

/// The instance that an attempt waits for is one that it has started.
proof fn lemma_awaited_was_started(uuid: Seq<char>, run: Seq<Turn>, i: int)
    requires
        is_attempt(uuid, run),
        0 <= i < run.len(),
    ensures
        run[i].attempt.uuid == uuid,
        run[i].attempt.awaiting matches Some(instance_id) ==> exists|k: int|
            0 <= k < i && (#[trigger] run[k]).starts(instance_id),
    decreases i,
{
    assert(goes_on(uuid, run, i));
    if i > 0 {
        lemma_awaited_was_started(uuid, run, i - 1);
        assert(goes_on(uuid, run, i - 1));
        if run[i - 1].attempt_after.awaiting != run[i - 1].attempt.awaiting {
            assert(run[i - 1].event is Polled);
            assert(run[i - 1].starts(run[i - 1].attempt_after.awaiting.unwrap()));
        }
    }
}

/// The instance is there, and not over, on every step but the last.
pub open spec fn is_there_all_along(run: Seq<Turn>, instance_id: u32) -> bool {
    forall|k: int| 0 <= k < run.len() - 1 ==> (#[trigger] run[k]).sees(instance_id)
}

/// Where a TA runs one process for each session, an attempt ends with the route
/// to an instance that this very attempt has started, and that was new when it
/// did. So it never leads to an instance that was there all along, such as the
/// one of another session.
pub proof fn law_attempt_gets_its_own_instance(
    uuid: Seq<char>,
    run: Seq<Turn>,
    route: InstanceRoute,
)
    requires
        is_attempt(uuid, run),
        run.len() > 0,
        run.last().step.action == OpenAction::Finish(Ok(route)),
        run.last().before.ta(uuid).is_multi_instance(),
    ensures
        route.uuid@ == uuid,
        route.instance_id != 0,
        exists|k: int|
            0 <= k < run.len() - 1 && (#[trigger] run[k]).starts(route.instance_id),
        forall|other: u32| #[trigger]
            is_there_all_along(run, other) ==> other != route.instance_id,
{
    let n = run.len() - 1;
    lemma_awaited_was_started(uuid, run, n);
    assert(goes_on(uuid, run, n));
    assert(run[n].event is Polled);
}

/// One step of a connection.
pub struct Exchange {
    pub before: ConnectionView,
    pub event: ConnectionEvent,
    pub step: ConnectionStep,
    pub after: ConnectionView,
}

impl Exchange {
    /// The event can come, and the step is right.
    pub open spec fn is_right(self) -> bool {
        &&& self.before.expects(self.event)
        &&& self.before.steps(self.event, self.step, self.after)
    }

    /// The request that was read, if one was.
    pub open spec fn request(self) -> Option<KindView> {
        match self.event {
            ConnectionEvent::PayloadRead { data } => match decoded_request(data@) {
                Ok(kind) => Some(kind),
                Err(_) => None,
            },
            _ => None,
        }
    }
}

/// The step goes on with the connection as the one before has left it; the
/// first begins with a fresh one.
pub open spec fn keeps_on(order: ByteOrder, run: Seq<Exchange>, i: int) -> bool {
    run[i].before == if i == 0 {
        ConnectionView::fresh(order)
    } else {
        run[i - 1].after
    }
}

/// The steps of one connection, from its beginning on.
pub open spec fn is_connection(order: ByteOrder, run: Seq<Exchange>) -> bool {
    forall|i: int|
        0 <= i < run.len() ==> #[trigger] keeps_on(order, run, i) && run[i].is_right()
}

/// The requests that were read in the first `k` steps.
pub open spec fn requests_read(run: Seq<Exchange>, k: int) -> Seq<KindView>
    decreases k,
{
    if k <= 0 {
        seq![]
    } else {
        match run[k - 1].request() {
            Some(kind) => requests_read(run, k - 1).push(kind),
            None => requests_read(run, k - 1),
        }
    }
}

/// The TA of the last request that opened a session, among the first `k`.
pub open spec fn session_after(kinds: Seq<KindView>, k: int) -> Option<Seq<char>>
    decreases k,
{
    if k <= 0 {
        None
    } else {
        match kinds[k - 1] {
            KindView::OpenSession(uuid) => Some(uuid),
            _ => session_after(kinds, k - 1),
        }
    }
}

/// What came first does not depend on what comes later.
proof fn lemma_session_of_prefix(kinds: Seq<KindView>, more: KindView, k: int)
    requires
        0 <= k <= kinds.len(),
    ensures
        session_after(kinds.push(more), k) == session_after(kinds, k),
    decreases k,
{
    if k > 0 {
        lemma_session_of_prefix(kinds, more, k - 1);
    }
}

/// A connection has its session with the TA of the last request that opened
/// one; it starts without.
proof fn lemma_session_of_connection(order: ByteOrder, run: Seq<Exchange>, k: int)
    requires
        is_connection(order, run),
        0 <= k <= run.len(),
    ensures
        k < run.len() ==> run[k].before.order == order && run[k].before.session == session_after(
            requests_read(run, k),
            requests_read(run, k).len() as int,
        ),
        k > 0 ==> run[k - 1].after.order == order && run[k - 1].after.session == session_after(
            requests_read(run, k),
            requests_read(run, k).len() as int,
        ),
    decreases k,
{
    if k > 0 {
        lemma_session_of_connection(order, run, k - 1);
        assert(keeps_on(order, run, k - 1));
        let before = requests_read(run, k - 1);
        if let Some(kind) = run[k - 1].request() {
            lemma_session_of_prefix(before, kind, before.len() as int);
        }
    }
    if k < run.len() {
        assert(keeps_on(order, run, k));
    }
}

/// On every connection, a request that opens a session goes to the TA that it
/// names, and any other to the TA of the last request before it that opened
/// one. It is delivered as it came, with its length in front. Where there is
/// no such TA, nothing is delivered.
pub proof fn law_requests_follow_the_session(order: ByteOrder, run: Seq<Exchange>, k: int)
    requires
        is_connection(order, run),
        0 <= k < run.len(),
    ensures
        run[k].request() matches Some(kind) ==> match kind.target(
            session_after(requests_read(run, k), requests_read(run, k).len() as int),
        ) {
            Some(uuid) => run[k].step.action matches ConnectionAction::Deliver(forward)
                && forward.socket_path@ == session_socket(uuid) && forward.message@ == framed(
                order,
                run[k].event->PayloadRead_data@,
            ),
            None => run[k].step.action == ConnectionAction::End(ConnectionEnd::NoSession),
        },
        run[k].step.action is Deliver ==> run[k].request() is Some,
{
    lemma_session_of_connection(order, run, k);
    assert(keeps_on(order, run, k));
}

/// The first packet that is refused, and the first failure, end a connection:
/// nothing is read or sent after it.
pub proof fn law_first_failure_ends_connection(order: ByteOrder, run: Seq<Exchange>, k: int)
    requires
        is_connection(order, run),
        0 <= k < run.len(),
        run[k].step.action is End,
    ensures
        k == run.len() - 1,
        run[k].step.to_client@.len() == 0,
{
    assert(keeps_on(order, run, k));
    if k + 1 < run.len() {
        assert(keeps_on(order, run, k + 1));
    }
}

/// The event when `len` bytes are to be read of what a TA sent before it
/// stopped, after `from` bytes: it is all of them, or the read fails.
pub open spec fn is_read_of(event: ConnectionEvent, answer: Seq<u8>, from: int, len: int) -> bool {
    if from + len <= answer.len() {
        event matches ConnectionEvent::AnswerRead { bytes } && bytes@ == answer.subrange(
            from,
            from + len,
        )
    } else {
        event is Failed
    }
}

/// The client gets the answer of the TA as it came: its length and then the
/// answer, after which the next packet is read; the length alone where the
/// answer is cut short, and nothing where the length is, and then the
/// connection is broken.
pub proof fn law_answer_is_relayed(answer: Seq<u8>, first: Exchange, second: Exchange)
    requires
        first.before.stage is AnswerLength,
        first.is_right(),
        is_read_of(first.event, answer, 0, 4),
        first.after.stage matches Stage::Answer { len } ==> second.before == first.after
            && second.is_right() && is_read_of(second.event, answer, 4, len as int),
    ensures
        ({
            let order = first.before.order;
            let goes_on = first.after.stage is Answer;
            let sent = if goes_on {
                first.step.to_client@ + second.step.to_client@
            } else {
                first.step.to_client@
            };
            let action = if goes_on {
                second.step.action
            } else {
                first.step.action
            };
            &&& sent == relayed(order, answer)
            &&& action == if is_whole(order, answer) {
                ConnectionAction::ReadHeader
            } else {
                ConnectionAction::End(ConnectionEnd::Broken)
            }
        }),
{
    let order = first.before.order;
    if answer.len() >= 4 {
        assert(answer.subrange(0, 4) =~= answer.take(4));
        let len = u32_value(order, answer.take(4));
        assert(first.after.stage == (Stage::Answer { len: len as usize }));
        if is_whole(order, answer) {
            assert(answer.take(4) + answer.subrange(4, 4 + len) =~= answer.take(4 + len));
        } else {
            assert(answer.take(4) + second.step.to_client@ =~= answer.take(4));
        }
    } else {
        assert(first.step.to_client@ =~= relayed(order, answer));
    }
}

} // verus!
