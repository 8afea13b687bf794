use std::collections::HashSet;

use vsock_manager::instance::{InstanceState, TaFlags};
use vsock_manager::open::{EnsureTaError, OpenAction, OpenAttempt, OpenEvent};
use vsock_manager::registry::TaRegistry;
use vsock_manager::session::{SessionBinding, SessionEntry, SessionState, VirtualSessionManager};

fn mk_flags(single: bool, multi: bool, keep_alive: bool) -> TaFlags {
    TaFlags {
        is_single_instance: single,
        is_multi_session: multi,
        is_instance_keep_alive: keep_alive,
    }
}

fn mk_binding(uuid: &str, instance_id: u32, local_session_id: u32, path: &str) -> SessionBinding {
    SessionBinding {
        uuid: uuid.to_string(),
        instance_id,
        local_session_id,
        socket_path: path.to_string(),
        generation: 0,
    }
}

#[test]
fn global_session_id_is_unique_and_non_zero() {
    let mut manager = VirtualSessionManager::default();
    let base = SessionBinding {
        uuid: "u".to_string(),
        instance_id: 1,
        local_session_id: 7,
        socket_path: "/tmp/u.1.sock".to_string(),
        generation: 0,
    };

    let s1 = manager.bind(base.clone());
    let s2 = manager.bind(base.clone());
    let s3 = manager.bind(base);

    assert_ne!(s1, 0);
    assert_ne!(s2, 0);
    assert_ne!(s3, 0);
    assert_ne!(s1, s2);
    assert_ne!(s1, s3);
    assert_ne!(s2, s3);
}

#[test]
fn invalidate_instance_removes_only_target_instance_sessions() {
    let mut manager = VirtualSessionManager::default();
    let sid_a = manager.bind(SessionBinding {
        uuid: "uuid-a".to_string(),
        instance_id: 1,
        local_session_id: 11,
        socket_path: "/tmp/uuid-a.1.sock".to_string(),
        generation: 0,
    });
    let sid_b = manager.bind(SessionBinding {
        uuid: "uuid-a".to_string(),
        instance_id: 2,
        local_session_id: 22,
        socket_path: "/tmp/uuid-a.2.sock".to_string(),
        generation: 0,
    });
    let sid_c = manager.bind(SessionBinding {
        uuid: "uuid-b".to_string(),
        instance_id: 1,
        local_session_id: 33,
        socket_path: "/tmp/uuid-b.1.sock".to_string(),
        generation: 0,
    });

    manager.invalidate_instance("uuid-a", 1);

    assert!(manager.get(sid_a).is_none());
    assert!(manager.get(sid_b).is_some());
    assert!(manager.get(sid_c).is_some());
}

#[test]
fn session_entry_close_blocks_further_invoke() {
    let mut entry = SessionEntry::new(SessionBinding {
        uuid: "uuid".to_string(),
        instance_id: 3,
        local_session_id: 42,
        socket_path: "/tmp/uuid.3.sock".to_string(),
        generation: 0,
    });

    let first_close = entry.with_close(|b| b.local_session_id);
    let second_close = entry.with_close(|b| b.local_session_id);
    let invoke_after_close = entry.with_invoke(|b| b.local_session_id);

    assert_eq!(first_close, Some(42));
    assert_eq!(second_close, None);
    assert_eq!(invoke_after_close, None);
}

#[test]
fn on_session_closed_respects_keep_alive_for_single_instance() {
    let mut registry = TaRegistry::from_env(None, None);
    let uuid = "keepalive-uuid";

    registry.mark_registered(
        uuid,
        1,
        "/tmp/keepalive-uuid.1.sock".to_string(),
        mk_flags(true, true, true),
    );
    let sid = registry
        .bind_session(uuid, 1, "/tmp/keepalive-uuid.1.sock".to_string(), 1)
        .expect("bind should succeed");
    registry.unbind_session(sid);
    registry.on_session_closed(uuid, 1);

    let instance = registry.instance(uuid, 1).expect("instance should exist");
    assert_eq!(instance.state, InstanceState::Ready);
    assert_eq!(instance.active_sessions, 0);
}

#[test]
fn on_session_closed_retires_instance_when_single_false() {
    let mut registry = TaRegistry::from_env(None, None);
    let uuid = "single-false-uuid";

    registry.mark_registered(
        uuid,
        7,
        "/tmp/single-false-uuid.7.sock".to_string(),
        mk_flags(false, true, false),
    );
    let sid = registry
        .bind_session(uuid, 7, "/tmp/single-false-uuid.7.sock".to_string(), 2)
        .expect("bind should succeed");
    registry.unbind_session(sid);
    registry.on_session_closed(uuid, 7);

    let instance = registry.instance(uuid, 7).expect("instance should exist");
    assert_eq!(instance.state, InstanceState::Dead);
    assert_eq!(instance.active_sessions, 0);
}

#[test]
fn on_session_closed_retires_when_keep_alive_disabled() {
    let mut registry = TaRegistry::from_env(None, None);
    let uuid = "single-keepalive-off";

    registry.mark_registered(
        uuid,
        9,
        "/tmp/single-keepalive-off.9.sock".to_string(),
        mk_flags(true, true, false),
    );
    let sid = registry
        .bind_session(uuid, 9, "/tmp/single-keepalive-off.9.sock".to_string(), 5)
        .expect("bind should succeed");
    registry.unbind_session(sid);
    registry.on_session_closed(uuid, 9);

    let instance = registry.instance(uuid, 9).expect("instance should exist");
    assert_eq!(instance.state, InstanceState::Dead);
    assert_eq!(instance.active_sessions, 0);
}

#[test]
fn bind_session_updates_mapping_and_active_count() {
    let mut registry = TaRegistry::from_env(None, None);
    let uuid = "binding-uuid";
    let socket_path = "/tmp/binding-uuid.1.sock".to_string();
    let local_session_id = 88;

    registry.mark_registered(uuid, 1, socket_path.clone(), mk_flags(true, true, true));
    let global_session_id = registry
        .bind_session(uuid, 1, socket_path.clone(), local_session_id)
        .expect("bind should succeed");

    let entry = registry
        .session_entry(global_session_id)
        .expect("global session should be present");
    let binding = entry.binding();
    assert_eq!(binding.uuid, uuid);
    assert_eq!(binding.instance_id, 1);
    assert_eq!(binding.local_session_id, local_session_id);
    assert_eq!(binding.socket_path, socket_path);

    let instance = registry.instance(uuid, 1).expect("instance should exist");
    assert_eq!(instance.active_sessions, 1);
}

#[test]
fn mark_instance_unavailable_invalidates_related_global_sessions() {
    let mut registry = TaRegistry::from_env(None, None);
    registry.mark_registered(
        "uuid-x",
        1,
        "/tmp/uuid-x.1.sock".to_string(),
        mk_flags(true, true, true),
    );
    registry.mark_registered(
        "uuid-y",
        1,
        "/tmp/uuid-y.1.sock".to_string(),
        mk_flags(true, true, true),
    );

    let s1 = registry
        .bind_session("uuid-x", 1, "/tmp/uuid-x.1.sock".to_string(), 10)
        .expect("bind should succeed");
    let s2 = registry
        .bind_session("uuid-x", 1, "/tmp/uuid-x.1.sock".to_string(), 11)
        .expect("bind should succeed");
    let s3 = registry
        .bind_session("uuid-y", 1, "/tmp/uuid-y.1.sock".to_string(), 12)
        .expect("bind should succeed");

    registry.mark_instance_unavailable("uuid-x", 1);

    assert!(registry.session_entry(s1).is_none());
    assert!(registry.session_entry(s2).is_none());
    assert!(registry.session_entry(s3).is_some());
}

#[test]
fn on_session_closed_single_instance_only_retires_after_last_session() {
    let mut registry = TaRegistry::from_env(None, None);
    let uuid = "single-multi-close-order";
    let socket = "/tmp/single-multi-close-order.1.sock".to_string();

    registry.mark_registered(uuid, 1, socket.clone(), mk_flags(true, true, false));
    let s1 = registry
        .bind_session(uuid, 1, socket.clone(), 100)
        .expect("bind should succeed");
    let s2 = registry
        .bind_session(uuid, 1, socket.clone(), 101)
        .expect("bind should succeed");

    registry.unbind_session(s1);
    registry.on_session_closed(uuid, 1);

    {
        let instance = registry.instance(uuid, 1).expect("instance should exist");
        assert_eq!(instance.state, InstanceState::Ready);
        assert_eq!(instance.active_sessions, 1);
    }

    registry.unbind_session(s2);
    registry.on_session_closed(uuid, 1);

    let instance = registry.instance(uuid, 1).expect("instance should exist");
    assert_eq!(instance.state, InstanceState::Dead);
    assert_eq!(instance.active_sessions, 0);
}

#[test]
fn session_entry_invoke_allowed_before_close() {
    let entry = SessionEntry::new(SessionBinding {
        uuid: "invoke-open".to_string(),
        instance_id: 2,
        local_session_id: 9,
        socket_path: "/tmp/invoke-open.2.sock".to_string(),
        generation: 0,
    });

    let invoke = entry.with_invoke(|b| (b.instance_id, b.local_session_id));
    assert_eq!(invoke, Some((2, 9)));
}

#[test]
fn unbind_session_removes_mapping() {
    let mut registry = TaRegistry::from_env(None, None);
    let uuid = "unbind-mapping";
    registry.mark_registered(
        uuid,
        5,
        "/tmp/unbind-mapping.5.sock".to_string(),
        mk_flags(true, true, true),
    );
    let sid = registry
        .bind_session(uuid, 5, "/tmp/unbind-mapping.5.sock".to_string(), 66)
        .expect("bind should succeed");
    assert!(registry.session_entry(sid).is_some());

    registry.unbind_session(sid);

    assert!(registry.session_entry(sid).is_none());
}

#[test]
fn prepare_instance_for_open_reuses_ready_single_instance_route() {
    let mut registry = TaRegistry::from_env(None, None);
    let uuid = "ready-single-route";
    let socket_path = "/tmp/ready-single-route.12.sock".to_string();
    registry.mark_registered(uuid, 12, socket_path.clone(), mk_flags(true, true, true));

    let mut attempt = OpenAttempt::new(uuid);
    let step =
        registry.prepare_instance_for_open(&mut attempt, OpenEvent::Polled { exited: vec![] });
    let route = match step.action {
        OpenAction::Finish(result) => {
            result.expect("should reuse ready instance without spawning")
        }
        _ => panic!("should reuse ready instance without spawning"),
    };
    assert_eq!(route.uuid, uuid);
    assert_eq!(route.instance_id, 12);
    assert_eq!(route.socket_path, socket_path);
}

/// A start that fails leaves no `Starting` instance behind on which a second
/// attempt would wait.
#[test]
fn prepare_instance_for_open_not_found_twice_no_register_timeout_wait() {
    let mut registry = TaRegistry::new("/nowhere".to_string(), 5000);
    let uuid = "22222222-2222-2222-2222-222222222222";

    for _ in 0..2 {
        let mut attempt = OpenAttempt::new(uuid);
        let step =
            registry.prepare_instance_for_open(&mut attempt, OpenEvent::Polled { exited: vec![] });
        let instance_id = match step.action {
            OpenAction::Spawn { instance_id } => instance_id,
            _ => panic!("nothing is there to wait for"),
        };
        let error = registry
            .spawn_ta(uuid, instance_id, [false, false, false])
            .expect_err("no candidate is a file");
        let step = registry.prepare_instance_for_open(
            &mut attempt,
            OpenEvent::SpawnFailed { instance_id, error },
        );
        assert!(matches!(
            step.action,
            OpenAction::Finish(Err(EnsureTaError::NotFound))
        ));
        assert!(registry.instance(uuid, instance_id).is_none());
    }
}

#[test]
fn session_lookup_does_not_cross_instances_with_same_local_session_id() {
    let mut registry = TaRegistry::from_env(None, None);
    let uuid = "route-no-cross-instance";

    registry.mark_registered(
        uuid,
        1,
        "/tmp/route-no-cross-instance.1.sock".to_string(),
        mk_flags(false, true, false),
    );
    registry.mark_registered(
        uuid,
        2,
        "/tmp/route-no-cross-instance.2.sock".to_string(),
        mk_flags(false, true, false),
    );

    // Same local session id on two different instances must map to different global ids.
    let gsid_1 = registry
        .bind_session(uuid, 1, "/tmp/route-no-cross-instance.1.sock".to_string(), 42)
        .expect("bind instance 1 should succeed");
    let gsid_2 = registry
        .bind_session(uuid, 2, "/tmp/route-no-cross-instance.2.sock".to_string(), 42)
        .expect("bind instance 2 should succeed");

    assert_ne!(gsid_1, gsid_2);

    let binding_1 = registry
        .session_entry(gsid_1)
        .expect("lookup gsid_1")
        .binding();
    let binding_2 = registry
        .session_entry(gsid_2)
        .expect("lookup gsid_2")
        .binding();

    assert_eq!(binding_1.instance_id, 1);
    assert_eq!(binding_1.local_session_id, 42);
    assert_eq!(binding_1.socket_path, "/tmp/route-no-cross-instance.1.sock");

    assert_eq!(binding_2.instance_id, 2);
    assert_eq!(binding_2.local_session_id, 42);
    assert_eq!(binding_2.socket_path, "/tmp/route-no-cross-instance.2.sock");
}

#[test]
fn bound_ids_and_generations_count_up() {
    let mut manager = VirtualSessionManager::default();
    assert!(manager.has_room());
    let a = manager.bind(mk_binding("u", 1, 1, "/tmp/u.1.sock"));
    let b = manager.bind(mk_binding("u", 1, 2, "/tmp/u.1.sock"));
    assert_eq!((a, b), (1, 2));
    assert_eq!(manager.get(a).unwrap().binding().generation, 0);
    assert_eq!(manager.get(b).unwrap().binding().generation, 1);

    // An id that was dropped is not given out again at once.
    manager.unbind(a);
    let c = manager.bind(mk_binding("u", 1, 3, "/tmp/u.1.sock"));
    assert_eq!(c, 3);
    assert_eq!(manager.get(c).unwrap().binding().generation, 2);
    assert_eq!(manager.get(c).unwrap().binding().local_session_id, 3);
    assert!(manager.get(a).is_none());
}

#[test]
fn interleaved_binds_generate_unique_ids() {
    let mut manager = VirtualSessionManager::default();
    let workers = 8usize;
    let per_worker = 300usize;
    let mut all_ids = Vec::with_capacity(workers * per_worker);
    for i in 0..per_worker {
        for worker in 0..workers {
            let sid = manager.bind(SessionBinding {
                uuid: format!("uuid-{worker}"),
                instance_id: (worker as u32) + 1,
                local_session_id: i as u32 + 1,
                socket_path: format!("/tmp/uuid-{worker}.{}.sock", worker + 1),
                generation: 0,
            });
            all_ids.push(sid);
        }
    }
    assert_eq!(all_ids.len(), workers * per_worker);
    assert!(all_ids.iter().all(|sid| *sid != 0));
    let unique: HashSet<u32> = all_ids.iter().copied().collect();
    assert_eq!(unique.len(), all_ids.len());
}

#[test]
fn begin_close_succeeds_once_and_is_seen_by_lookups() {
    let mut registry = TaRegistry::from_env(None, None);
    let sid = registry
        .bind_session("u", 1, "/tmp/u.1.sock".to_string(), 17)
        .unwrap();
    let session = registry.session_entry(sid).unwrap();
    assert_eq!(session.with_invoke(|b| b.local_session_id), Some(17));
    assert_eq!(registry.invoke_binding(sid).unwrap().local_session_id, 17);

    let binding = registry.begin_close(sid).expect("the session is open");
    assert_eq!(binding.uuid, "u");
    assert_eq!(binding.local_session_id, 17);
    assert!(registry.begin_close(sid).is_none());

    let session = registry.session_entry(sid).unwrap();
    assert_eq!(session.with_invoke(|b| b.local_session_id), None);
    assert_eq!(session.binding().local_session_id, 17);
    assert!(registry.invoke_binding(sid).is_none());

    registry.unbind_session(sid);
    assert!(registry.begin_close(sid).is_none());
    assert!(registry.begin_close(sid + 1).is_none());
}

#[test]
fn closed_session_stays_closed() {
    let mut manager = VirtualSessionManager::default();
    let a = manager.bind(mk_binding("u", 1, 1, "/tmp/u.1.sock"));
    let b = manager.bind(mk_binding("u", 2, 2, "/tmp/u.2.sock"));
    assert!(manager.begin_close(a).is_some());
    assert_eq!(manager.invoke_binding(b).unwrap().instance_id, 2);
    manager.bind(mk_binding("u", 1, 3, "/tmp/u.1.sock"));
    manager.invalidate_instance("u", 2);
    assert!(manager.invoke_binding(a).is_none());
    assert!(manager.invoke_binding(b).is_none());
    manager.unbind(a);
    assert!(manager.invoke_binding(a).is_none());
}

#[test]
fn freed_ids_and_generations_are_not_reused() {
    let mut manager = VirtualSessionManager::default();
    let mut seen = HashSet::new();
    for i in 0..500u32 {
        let id = manager.bind(mk_binding("u", 1, i, "/tmp/u.1.sock"));
        let generation = manager.get(id).unwrap().binding().generation;
        assert_eq!((id, generation), (i + 1, i as u64));
        assert!(seen.insert(id));
        if i % 3 == 0 {
            manager.unbind(id);
        }
    }
}

#[test]
fn session_states_are_told_apart() {
    assert_ne!(SessionState::Open, SessionState::Closing);
}

#[test]
fn bind_unbind_close_keeps_state_consistent() {
    let mut registry = TaRegistry::from_env(None, None);
    let uuid = "concurrent-bind-close";
    let instance_id = 21u32;
    let socket_path = "/tmp/concurrent-bind-close.21.sock".to_string();
    registry.mark_registered(uuid, instance_id, socket_path.clone(), mk_flags(true, true, true));

    let workers = 6usize;
    let per_worker = 120usize;
    let mut all_ids = Vec::with_capacity(workers * per_worker);
    for i in 0..per_worker {
        // The workers open their sessions in turn, and close them in turn.
        let mut open = Vec::new();
        for worker in 0..workers {
            let sid = registry
                .bind_session(
                    uuid,
                    instance_id,
                    socket_path.clone(),
                    ((worker * per_worker + i) as u32) + 1,
                )
                .expect("bind should succeed");
            open.push(sid);
        }
        assert_eq!(
            registry.instance(uuid, instance_id).unwrap().active_sessions,
            workers as u32
        );
        for sid in open {
            registry.unbind_session(sid);
            registry.on_session_closed(uuid, instance_id);
            all_ids.push(sid);
        }
    }
    for sid in all_ids {
        assert!(registry.session_entry(sid).is_none());
    }
    let instance = registry
        .instance(uuid, instance_id)
        .expect("instance should exist");
    assert_eq!(instance.state, InstanceState::Ready);
    assert_eq!(instance.active_sessions, 0);
}

#[test]
fn closing_without_flags_changes_nothing() {
    let mut registry = TaRegistry::from_env(None, None);
    let mut attempt = OpenAttempt::new("u");
    registry.prepare_instance_for_open(&mut attempt, OpenEvent::Polled { exited: vec![] });
    registry.bind_session("u", 1, "/tmp/u.1.sock".to_string(), 1).unwrap();
    assert_eq!(registry.instance("u", 1).unwrap().active_sessions, 1);
    assert_eq!(registry.on_session_closed("u", 1), None);
    assert_eq!(registry.instance("u", 1).unwrap().active_sessions, 1);
    assert_eq!(registry.on_session_closed("unknown", 1), None);
}

#[test]
fn closing_more_often_than_opening_stops_at_zero() {
    let mut registry = TaRegistry::from_env(None, None);
    registry.mark_registered("u", 1, "/s".to_string(), mk_flags(true, true, true));
    registry.on_session_closed("u", 1);
    assert_eq!(registry.instance("u", 1).unwrap().active_sessions, 0);
    assert_eq!(registry.instance("u", 1).unwrap().state, InstanceState::Ready);
}

#[test]
fn first_flags_stand() {
    let mut registry = TaRegistry::from_env(None, None);
    let first = mk_flags(true, true, true);
    let other = mk_flags(false, true, false);
    assert_eq!(registry.mark_registered("u", 1, "/a".to_string(), first), None);
    assert_eq!(registry.mark_registered("u", 1, "/b".to_string(), first), None);
    assert_eq!(registry.mark_registered("u", 2, "/c".to_string(), other), Some(first));
    assert_eq!(registry.instance("u", 1).unwrap().socket_path, "/b");
    assert_eq!(registry.instance("u", 2).unwrap().socket_path, "/c");
    // Still one instance for all: closing does not retire it.
    assert_eq!(registry.on_session_closed("u", 2), None);
    assert_eq!(registry.instance("u", 2).unwrap().state, InstanceState::Ready);
}

#[test]
fn unavailable_instance_is_dead_and_others_are_not() {
    let mut registry = TaRegistry::from_env(None, None);
    registry.mark_registered("u", 1, "/a".to_string(), mk_flags(true, true, true));
    registry.mark_registered("v", 1, "/b".to_string(), mk_flags(true, true, true));
    registry.mark_instance_unavailable("u", 1);
    registry.mark_instance_unavailable("w", 1);
    assert_eq!(registry.instance("u", 1).unwrap().state, InstanceState::Dead);
    assert_eq!(registry.instance("v", 1).unwrap().state, InstanceState::Ready);
    assert!(registry.instance("w", 1).is_none());
}
