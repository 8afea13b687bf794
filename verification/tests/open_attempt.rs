use vsock_manager::instance::{InstanceState, TaFlags};
use vsock_manager::open::{
    spawn_event, EnsureTaError, OpenAction, OpenAttempt, OpenEvent, OpenStep,
};
use vsock_manager::registry::TaRegistry;

const SHARED: TaFlags = TaFlags {
    is_single_instance: true,
    is_multi_session: true,
    is_instance_keep_alive: true,
};

const OWN: TaFlags = TaFlags {
    is_single_instance: false,
    is_multi_session: true,
    is_instance_keep_alive: false,
};

fn poll(registry: &mut TaRegistry, attempt: &mut OpenAttempt, exited: Vec<u32>) -> OpenStep {
    assert!(registry.has_instance_room(&attempt.uuid));
    registry.prepare_instance_for_open(attempt, OpenEvent::Polled { exited })
}

fn spawned(step: OpenStep) -> u32 {
    match step.action {
        OpenAction::Spawn { instance_id } => instance_id,
        other => panic!("not a start: {other:?}"),
    }
}

fn started(registry: &mut TaRegistry, attempt: &mut OpenAttempt, pid: u32) -> u32 {
    let step = poll(registry, attempt, vec![]);
    let instance_id = spawned(step);
    let step = registry.prepare_instance_for_open(attempt, spawn_event(instance_id, Some(pid)));
    assert!(matches!(step.action, OpenAction::Poll));
    instance_id
}

fn served(step: OpenStep) -> (u32, String) {
    match step.action {
        OpenAction::Finish(Ok(route)) => (route.instance_id, route.socket_path),
        other => panic!("no route: {other:?}"),
    }
}

#[test]
fn first_attempt_starts_an_instance_and_gets_it_when_it_registers() {
    let mut registry = TaRegistry::new("/tee/ta".to_string(), 3000);
    let mut attempt = OpenAttempt::new("u");
    assert_eq!(attempt.awaiting, None);
    let id = started(&mut registry, &mut attempt, 100);
    assert_eq!(id, 1);
    assert_eq!(attempt.awaiting, Some(1));
    {
        let instance = registry.instance("u", 1).unwrap();
        assert_eq!(instance.pid, Some(100));
        assert_eq!(instance.state, InstanceState::Starting);
        assert_eq!(instance.socket_path, "/tmp/u.1.sock");
        assert_eq!(instance.active_sessions, 0);
    }

    let step = poll(&mut registry, &mut attempt, vec![]);
    assert!(matches!(step.action, OpenAction::ReadClock));
    let step = registry
        .prepare_instance_for_open(&mut attempt, OpenEvent::Clock { elapsed_nanos: 1_000_000 });
    assert!(matches!(step.action, OpenAction::Sleep { nanos: 2_999_000_000 }));

    registry.mark_registered("u", 1, "/run/u".to_string(), SHARED);
    let step =
        registry.prepare_instance_for_open(&mut attempt, OpenEvent::Woken { timed_out: false });
    assert!(matches!(step.action, OpenAction::Poll));
    let step = poll(&mut registry, &mut attempt, vec![]);
    assert_eq!(served(step), (1, "/run/u".to_string()));
}

#[test]
fn waiting_ends_at_the_deadline() {
    let mut registry = TaRegistry::new("/tee/ta".to_string(), 3000);
    let mut attempt = OpenAttempt::new("u");
    started(&mut registry, &mut attempt, 100);

    let step = registry
        .prepare_instance_for_open(&mut attempt, OpenEvent::Clock { elapsed_nanos: 2_999_999_999 });
    assert!(matches!(step.action, OpenAction::Sleep { nanos: 1 }));
    let step = registry
        .prepare_instance_for_open(&mut attempt, OpenEvent::Clock { elapsed_nanos: 3_000_000_000 });
    assert!(matches!(
        step.action,
        OpenAction::Finish(Err(EnsureTaError::RegisterTimeout))
    ));
    let step =
        registry.prepare_instance_for_open(&mut attempt, OpenEvent::Woken { timed_out: true });
    assert!(matches!(
        step.action,
        OpenAction::Finish(Err(EnsureTaError::RegisterTimeout))
    ));
}

#[test]
fn registration_just_before_the_wait_is_not_missed() {
    let mut registry = TaRegistry::new("/tee/ta".to_string(), 3000);
    let mut attempt = OpenAttempt::new("u");
    started(&mut registry, &mut attempt, 100);
    registry.mark_registered("u", 1, "/run/u".to_string(), SHARED);
    let step =
        registry.prepare_instance_for_open(&mut attempt, OpenEvent::Clock { elapsed_nanos: 5 });
    assert!(matches!(step.action, OpenAction::Poll));
}

#[test]
fn registration_during_the_start_is_not_undone() {
    let mut registry = TaRegistry::new("/tee/ta".to_string(), 3000);
    let mut attempt = OpenAttempt::new("u");
    let id = spawned(poll(&mut registry, &mut attempt, vec![]));
    registry.mark_registered("u", id, "/run/u".to_string(), SHARED);
    registry.prepare_instance_for_open(
        &mut attempt,
        OpenEvent::Spawned { instance_id: id, pid: 7 },
    );
    let instance = registry.instance("u", id).unwrap();
    assert_eq!(instance.state, InstanceState::Ready);
    assert_eq!(instance.pid, Some(7));
    let step = poll(&mut registry, &mut attempt, vec![]);
    assert_eq!(served(step), (1, "/run/u".to_string()));
}

#[test]
fn second_attempt_waits_for_the_instance_of_the_first() {
    let mut registry = TaRegistry::new("/tee/ta".to_string(), 3000);
    let mut first = OpenAttempt::new("u");
    started(&mut registry, &mut first, 100);
    let mut second = OpenAttempt::new("u");
    let step = poll(&mut registry, &mut second, vec![]);
    assert!(matches!(step.action, OpenAction::ReadClock));
    registry.mark_registered("u", 1, "/run/u".to_string(), SHARED);
    let step = poll(&mut registry, &mut second, vec![]);
    assert_eq!(served(step), (1, "/run/u".to_string()));
}

#[test]
fn each_session_of_a_multi_instance_ta_gets_its_own_instance() {
    let mut registry = TaRegistry::new("/tee/ta".to_string(), 3000);
    registry.mark_registered("u", 1, "/run/u1".to_string(), OWN);
    let mut first = OpenAttempt::new("u");
    let mut second = OpenAttempt::new("u");
    let a = started(&mut registry, &mut first, 100);
    let b = started(&mut registry, &mut second, 101);
    assert_eq!((a, b), (2, 3));

    registry.mark_registered("u", b, "/run/u3".to_string(), OWN);
    let step = poll(&mut registry, &mut first, vec![]);
    assert!(matches!(step.action, OpenAction::ReadClock));
    let step = poll(&mut registry, &mut second, vec![]);
    assert_eq!(served(step), (3, "/run/u3".to_string()));
}

#[test]
fn instance_that_dies_while_starting_is_started_anew() {
    let mut registry = TaRegistry::new("/tee/ta".to_string(), 3000);
    registry.mark_registered("u", 1, "/run/u1".to_string(), OWN);
    let mut attempt = OpenAttempt::new("u");
    let id = started(&mut registry, &mut attempt, 100);
    let step = poll(&mut registry, &mut attempt, vec![id]);
    assert_eq!(step.gone, vec![(2, "/tmp/u.2.sock".to_string())]);
    assert_eq!(spawned(step), 3);
    assert_eq!(attempt.awaiting, Some(3));
    assert!(registry.instance("u", 2).is_none());
}

#[test]
fn reaping_takes_the_dead_and_their_sessions() {
    let mut registry = TaRegistry::new("/tee/ta".to_string(), 3000);
    registry.mark_registered("u", 1, "/run/u1".to_string(), OWN);
    registry.mark_registered("u", 2, "/run/u2".to_string(), OWN);
    registry.mark_registered("v", 1, "/run/v1".to_string(), OWN);
    let s1 = registry.bind_session("u", 1, "/run/u1".to_string(), 1).unwrap();
    let s2 = registry.bind_session("u", 2, "/run/u2".to_string(), 1).unwrap();
    let s3 = registry.bind_session("v", 1, "/run/v1".to_string(), 1).unwrap();
    registry.on_session_closed("u", 1);

    // Instance 2 has no process of its own that could have ended.
    let gone = registry.reap_dead_instances("u", &vec![2]);
    assert_eq!(gone, vec![(1, "/run/u1".to_string())]);
    assert!(registry.instance("u", 1).is_none());
    assert!(registry.instance("u", 2).is_some());
    assert!(registry.session_entry(s1).is_none());
    assert!(registry.session_entry(s2).is_some());
    assert!(registry.session_entry(s3).is_some());
    assert!(registry.reap_dead_instances("u", &vec![]).is_empty());
}

#[test]
fn retired_instance_hands_out_its_process() {
    let mut registry = TaRegistry::new("/tee/ta".to_string(), 3000);
    let mut attempt = OpenAttempt::new("u");
    let id = started(&mut registry, &mut attempt, 4711);
    registry.mark_registered("u", id, "/run/u".to_string(), OWN);
    registry.bind_session("u", id, "/run/u".to_string(), 1).unwrap();
    assert_eq!(registry.on_session_closed("u", id), Some(4711));
    assert_eq!(registry.instance("u", id).unwrap().state, InstanceState::Dead);
}

#[test]
fn failed_start_keeps_the_rest() {
    let mut registry = TaRegistry::new("/tee/ta".to_string(), 3000);
    registry.mark_registered("u", 1, "/run/u1".to_string(), OWN);
    let mut attempt = OpenAttempt::new("u");
    let id = spawned(poll(&mut registry, &mut attempt, vec![]));
    let step = registry.prepare_instance_for_open(&mut attempt, spawn_event(id, None));
    assert!(matches!(
        step.action,
        OpenAction::Finish(Err(EnsureTaError::SpawnFailed))
    ));
    assert!(registry.instance("u", id).is_none());
    assert!(registry.instance("u", 1).is_some());
    registry.rollback_failed_spawn("unknown", 1);
    // The number of the instance that failed is not used again at once.
    let mut attempt = OpenAttempt::new("u");
    assert_eq!(spawned(poll(&mut registry, &mut attempt, vec![])), 3);
}

#[test]
fn instance_numbers_skip_those_in_use() {
    let mut registry = TaRegistry::new("/tee/ta".to_string(), 3000);
    registry.mark_registered("u", 1, "/a".to_string(), OWN);
    registry.mark_registered("u", 2, "/b".to_string(), OWN);
    registry.mark_registered("u", 0, "/c".to_string(), OWN);
    let mut attempt = OpenAttempt::new("u");
    assert_eq!(spawned(poll(&mut registry, &mut attempt, vec![])), 3);
}

#[test]
fn settings_fall_back_to_defaults() {
    for (text, nanos) in [
        (None, 3_000_000_000u128),
        (Some(""), 3_000_000_000),
        (Some("12x"), 3_000_000_000),
        (Some("18446744073709551616"), 3_000_000_000),
        (Some("250"), 250_000_000),
        (Some("+7"), 7_000_000),
        (Some("0"), 0),
    ] {
        let mut registry = TaRegistry::from_env(None, text.map(|t| t.to_string()));
        assert_eq!(registry.ta_candidates("u")[0], "/tee/ta/u");
        let mut attempt = OpenAttempt::new("u");
        started(&mut registry, &mut attempt, 1);
        let step =
            registry.prepare_instance_for_open(&mut attempt, OpenEvent::Clock { elapsed_nanos: 0 });
        match step.action {
            OpenAction::Sleep { nanos: n } => assert_eq!(n, nanos),
            OpenAction::Finish(Err(EnsureTaError::RegisterTimeout)) => assert_eq!(nanos, 0),
            other => panic!("unexpected: {other:?}"),
        }
    }
    let registry = TaRegistry::from_env(Some("/opt/ta".to_string()), None);
    assert_eq!(registry.ta_candidates("u")[1], "/opt/ta/u.ta");
}

#[test]
fn room_is_left_for_sessions_and_instances() {
    let registry = TaRegistry::from_env(None, None);
    assert!(registry.has_session_room());
    assert!(registry.has_instance_room("u"));
}

#[test]
fn retired_instance_is_not_served_again() {
    let mut registry = TaRegistry::new("/tee/ta".to_string(), 3000);
    let flags = TaFlags { is_instance_keep_alive: false, ..SHARED };
    let mut first = OpenAttempt::new("u");
    assert_eq!(started(&mut registry, &mut first, 100), 1);
    registry.mark_registered("u", 1, "/run/u1".to_string(), flags);
    assert_eq!(served(poll(&mut registry, &mut first, vec![])), (1, "/run/u1".to_string()));
    let sid = registry.bind_session("u", 1, "/run/u1".to_string(), 5).unwrap();
    assert_eq!(registry.on_session_closed("u", 1), Some(100));

    let mut second = OpenAttempt::new("u");
    let step = poll(&mut registry, &mut second, vec![]);
    assert_eq!(step.gone, vec![(1, "/run/u1".to_string())]);
    assert_eq!(spawned(step), 2);
    assert!(registry.session_entry(sid).is_none());
}

#[test]
fn default_sockets_differ() {
    let mut registry = TaRegistry::new("/tee/ta".to_string(), 3000);
    let mut sockets = Vec::new();
    for uuid in ["u", "u.1", "u.11"] {
        registry.mark_registered(uuid, 0, "/run/any".to_string(), OWN);
        for _ in 0..12 {
            let mut attempt = OpenAttempt::new(uuid);
            let id = started(&mut registry, &mut attempt, 1);
            let instance = registry.instance(uuid, id).unwrap();
            assert_eq!(instance.socket_path, format!("/tmp/{uuid}.{id}.sock"));
            sockets.push(instance.socket_path.clone());
        }
    }
    sockets.sort();
    sockets.dedup();
    assert_eq!(sockets.len(), 36);
}

#[test]
fn one_ta_does_not_touch_another() {
    let mut registry = TaRegistry::new("/tee/ta".to_string(), 3000);
    registry.mark_registered("v", 1, "/run/v".to_string(), OWN);
    let sid = registry.bind_session("v", 1, "/run/v".to_string(), 9).unwrap();
    let mut attempt = OpenAttempt::new("u");
    started(&mut registry, &mut attempt, 1);
    poll(&mut registry, &mut attempt, vec![1]);
    registry.mark_instance_unavailable("u", 1);
    registry.rollback_failed_spawn("u", 2);
    let instance = registry.instance("v", 1).unwrap();
    assert_eq!(instance.state, InstanceState::Ready);
    assert_eq!(instance.active_sessions, 1);
    assert_eq!(registry.session_entry(sid).unwrap().binding().local_session_id, 9);
}

#[test]
fn attempt_never_ends_on_an_instance_of_another() {
    let mut registry = TaRegistry::new("/tee/ta".to_string(), 3000);
    registry.mark_registered("u", 1, "/run/u1".to_string(), OWN);
    registry.mark_registered("u", 2, "/run/u2".to_string(), OWN);
    let mut attempt = OpenAttempt::new("u");
    let lost = started(&mut registry, &mut attempt, 100);
    // The first process dies, the second registers.
    let step = poll(&mut registry, &mut attempt, vec![lost]);
    let id = spawned(step);
    registry.prepare_instance_for_open(
        &mut attempt,
        OpenEvent::Spawned { instance_id: id, pid: 101 },
    );
    registry.mark_registered("u", id, "/run/own".to_string(), OWN);
    let step = poll(&mut registry, &mut attempt, vec![]);
    assert_eq!(served(step), (id, "/run/own".to_string()));
    assert!(![0, 1, 2, lost].contains(&id));
}

#[test]
fn attempt_without_an_instance_gets_the_one_that_registers() {
    let mut registry = TaRegistry::new("/tee/ta".to_string(), 3000);
    let mut other = OpenAttempt::new("u");
    let id = started(&mut registry, &mut other, 100);
    let mut attempt = OpenAttempt::new("u");
    let step = poll(&mut registry, &mut attempt, vec![]);
    assert!(matches!(step.action, OpenAction::ReadClock));
    assert_eq!(attempt.awaiting, None);
    registry.mark_registered("u", id, "/run/u".to_string(), SHARED);
    let step =
        registry.prepare_instance_for_open(&mut attempt, OpenEvent::Clock { elapsed_nanos: 5 });
    assert!(matches!(step.action, OpenAction::Poll));
    let step = poll(&mut registry, &mut attempt, vec![]);
    assert_eq!(served(step), (id, "/run/u".to_string()));
}

#[test]
fn turn_can_be_taken_after_reaping() {
    let mut registry = TaRegistry::new("/tee/ta".to_string(), 3000);
    let attempt = OpenAttempt::new("u");
    assert!(registry.can_decide(&attempt));
    registry.mark_registered("u", 1, "/run/u1".to_string(), OWN);
    registry.mark_instance_unavailable("u", 1);
    assert_eq!(registry.reap_dead_instances("u", &vec![]).len(), 1);
    assert!(registry.reap_dead_instances("u", &vec![]).is_empty());
    assert!(registry.can_decide(&attempt));
}
