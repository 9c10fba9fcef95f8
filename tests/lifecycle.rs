use native_activity_thread::library_loader::{LoaderError, NamespaceFactory};
use native_activity_thread::native_activity_thread::{
    DoneKind, HostAction, HostError, NativeActivityThread, ServiceCallbacks, ServiceState,
    PROCESS_STATE_IMPORTANT_FOREGROUND, PROCESS_STATE_UNKNOWN, TRIM_MEMORY_BACKGROUND,
    TRIM_MEMORY_UI_HIDDEN,
};
use native_activity_thread::native_application_thread::{
    BindServiceRequest, CreateServiceRequest, DestroyServiceRequest, UnbindServiceRequest,
};

fn all_callbacks() -> ServiceCallbacks {
    ServiceCallbacks {
        on_bind: true,
        on_unbind: true,
        on_rebind: true,
        on_destroy: true,
        on_trim_memory: true,
    }
}

fn no_callbacks() -> ServiceCallbacks {
    ServiceCallbacks {
        on_bind: false,
        on_unbind: false,
        on_rebind: false,
        on_destroy: false,
        on_trim_memory: false,
    }
}

fn create_request(token: u64, lib: &str) -> CreateServiceRequest {
    CreateServiceRequest::new(
        token,
        vec!["/data/app/lib".to_string(), "/system/lib64".to_string()],
        "/data/app".to_string(),
        lib.to_string(),
        "ANativeService_onCreate".to_string(),
        0,
    )
}

fn bind_request(token: u64, bind_token: u64, intent: i32, rebind: bool) -> BindServiceRequest {
    BindServiceRequest {
        service_token: token,
        bind_token,
        intent_hash: intent,
        action: None,
        data: None,
        rebind,
        process_state: 0,
        bind_seq: 0,
    }
}

fn create(host: &mut NativeActivityThread, token: u64, callbacks: ServiceCallbacks) {
    host.begin_create_service(&create_request(token, "libfoo.so")).unwrap();
    host.finish_create_service(token, callbacks).unwrap();
}

#[test]
fn create_then_bind_publishes_handle() {
    let mut host = NativeActivityThread::new(12);
    let ns = host.begin_create_service(&create_request(7, "libfoo")).unwrap();
    assert_eq!(ns.name, "native_app_12-0");
    assert_eq!(ns.library_path, "/data/app/lib:/system/lib64");
    assert_eq!(ns.permitted_libs_dir, "/data/app");
    let done = host.finish_create_service(7, all_callbacks()).unwrap();
    assert_eq!(
        done,
        HostAction::ServiceDoneExecuting { service_token: 7, kind: DoneKind::Anon }
    );
    let acts = host.bind_service(&bind_request(7, 3, 1, false)).unwrap();
    assert_eq!(
        acts,
        vec![HostAction::CallBind {
            service_token: 7,
            bind_token: 3,
            intent_hash: 1,
            action: None,
            data: None,
        }]
    );
    let publish = host.publish_bound_service(7, 3, 0xbeef).unwrap();
    assert_eq!(
        publish,
        HostAction::PublishService { service_token: 7, bind_token: 3, binder: 0xbeef }
    );
    assert_eq!(host.service(7).unwrap().state, ServiceState::Bound);
}

#[test]
fn bind_on_unknown_token_fails() {
    let mut host = NativeActivityThread::new(1);
    create(&mut host, 7, all_callbacks());
    let r = host.bind_service(&bind_request(99, 3, 1, false));
    assert_eq!(r, Err(HostError::ServiceNotFound));
    assert_eq!(host.publish_bound_service(99, 3, 5), Err(HostError::ServiceNotFound));
    assert_eq!(host.service_count(), 1);
}

#[test]
fn bind_without_entry_point_fails() {
    let mut host = NativeActivityThread::new(1);
    create(&mut host, 4, no_callbacks());
    assert_eq!(
        host.bind_service(&bind_request(4, 2, 9, false)),
        Err(HostError::MissingBindEntryPoint)
    );
    assert_eq!(host.publish_bound_service(4, 2, 0xbeef), Err(HostError::MissingBindEntryPoint));
    assert_eq!(host.service(4).unwrap().state, ServiceState::Created);
}

#[test]
fn bind_strings_with_nul_are_passed_as_absent() {
    let mut host = NativeActivityThread::new(1);
    create(&mut host, 4, all_callbacks());
    let mut req = bind_request(4, 2, 9, false);
    req.action = Some("android.intent.action.VIEW".to_string());
    req.data = Some("bad\0data".to_string());
    let acts = host.bind_service(&req).unwrap();
    assert_eq!(
        acts,
        vec![HostAction::CallBind {
            service_token: 4,
            bind_token: 2,
            intent_hash: 9,
            action: Some("android.intent.action.VIEW".to_string()),
            data: None,
        }]
    );
}

#[test]
fn null_binder_is_rejected() {
    let mut host = NativeActivityThread::new(1);
    create(&mut host, 4, all_callbacks());
    assert_eq!(host.publish_bound_service(4, 2, 0), Err(HostError::NullBinder));
    assert_eq!(host.service(4).unwrap().state, ServiceState::Created);
}

#[test]
fn rebind_calls_entry_point_and_reports() {
    let mut host = NativeActivityThread::new(1);
    create(&mut host, 4, all_callbacks());
    let acts = host.bind_service(&bind_request(4, 2, 9, true)).unwrap();
    assert_eq!(
        acts,
        vec![
            HostAction::CallRebind { service_token: 4, intent_hash: 9 },
            HostAction::ServiceDoneExecuting { service_token: 4, kind: DoneKind::Rebind },
        ]
    );
    assert_eq!(host.service(4).unwrap().state, ServiceState::Rebinding);
    create(&mut host, 5, no_callbacks());
    let acts = host.bind_service(&bind_request(5, 2, 9, true)).unwrap();
    assert_eq!(
        acts,
        vec![HostAction::ServiceDoneExecuting { service_token: 5, kind: DoneKind::Rebind }]
    );
}

#[test]
fn unbind_follows_entry_point_answer() {
    let mut host = NativeActivityThread::new(1);
    create(&mut host, 4, all_callbacks());
    let req = UnbindServiceRequest { service_token: 4, bind_token: 8, intent_hash: 2 };
    assert_eq!(
        host.unbind_service(&req).unwrap(),
        vec![HostAction::CallUnbind { service_token: 4, bind_token: 8, intent_hash: 2 }]
    );
    assert_eq!(
        host.finish_unbind_service(4, 8, true).unwrap(),
        HostAction::UnbindFinished { service_token: 4, bind_token: 8 }
    );
    assert_eq!(
        host.finish_unbind_service(4, 8, false).unwrap(),
        HostAction::ServiceDoneExecuting { service_token: 4, kind: DoneKind::Unbind }
    );
    assert_eq!(host.service(4).unwrap().state, ServiceState::Unbound);
    create(&mut host, 5, no_callbacks());
    let req = UnbindServiceRequest { service_token: 5, bind_token: 8, intent_hash: 2 };
    assert_eq!(
        host.unbind_service(&req).unwrap(),
        vec![HostAction::ServiceDoneExecuting { service_token: 5, kind: DoneKind::Unbind }]
    );
    let unknown = UnbindServiceRequest { service_token: 6, bind_token: 8, intent_hash: 2 };
    assert_eq!(host.unbind_service(&unknown), Err(HostError::ServiceNotFound));
}

#[test]
fn destroy_unknown_token_fails_and_keeps_table() {
    let mut host = NativeActivityThread::new(1);
    create(&mut host, 1, all_callbacks());
    create(&mut host, 2, all_callbacks());
    let r = host.destroy_service(&DestroyServiceRequest { service_token: 3 });
    assert_eq!(r, Err(HostError::ServiceNotFound));
    assert_eq!(host.service_count(), 2);
    assert!(host.service(1).is_some());
    assert!(host.service(2).is_some());
}

#[test]
fn create_then_destroy_unloads_once() {
    let mut host = NativeActivityThread::new(1);
    create(&mut host, 7, all_callbacks());
    let acts = host.destroy_service(&DestroyServiceRequest { service_token: 7 }).unwrap();
    assert_eq!(
        acts,
        vec![
            HostAction::CallDestroy { service_token: 7 },
            HostAction::Unload { service_token: 7 },
            HostAction::ServiceDoneExecuting { service_token: 7, kind: DoneKind::Stop },
        ]
    );
    let unloads =
        acts.iter().filter(|a| **a == HostAction::Unload { service_token: 7 }).count();
    assert_eq!(unloads, 1);
    assert_eq!(host.service_count(), 0);
    create(&mut host, 8, no_callbacks());
    let acts = host.destroy_service(&DestroyServiceRequest { service_token: 8 }).unwrap();
    assert_eq!(
        acts,
        vec![
            HostAction::Unload { service_token: 8 },
            HostAction::ServiceDoneExecuting { service_token: 8, kind: DoneKind::Stop },
        ]
    );
}

#[test]
fn create_on_live_token_fails() {
    let mut host = NativeActivityThread::new(1);
    create(&mut host, 7, all_callbacks());
    assert_eq!(
        host.begin_create_service(&create_request(7, "libbar")).err(),
        Some(HostError::DuplicateToken)
    );
    assert_eq!(host.finish_create_service(7, no_callbacks()), Err(HostError::DuplicateToken));
    assert_eq!(host.service(7).unwrap().callbacks, all_callbacks());
    assert_eq!(host.service_count(), 1);
}

#[test]
fn create_destroy_sequences_keep_live_tokens() {
    let mut host = NativeActivityThread::new(1);
    for t in [5u64, 3, 9, 1] {
        create(&mut host, t, no_callbacks());
    }
    host.destroy_service(&DestroyServiceRequest { service_token: 3 }).unwrap();
    host.destroy_service(&DestroyServiceRequest { service_token: 1 }).unwrap();
    create(&mut host, 3, no_callbacks());
    let mut live: Vec<u64> =
        [1u64, 3, 5, 9].into_iter().filter(|t| host.service(*t).is_some()).collect();
    live.sort();
    assert_eq!(live, vec![3, 5, 9]);
    assert_eq!(host.service_count(), 3);
}

#[test]
fn invalid_names_fail_create() {
    let mut host = NativeActivityThread::new(1);
    assert_eq!(
        host.begin_create_service(&create_request(1, "lib\0foo")).err(),
        Some(HostError::InvalidLibraryName)
    );
    let mut req = create_request(1, "libfoo");
    req.base_symbol_name = "sym\0".to_string();
    assert_eq!(host.begin_create_service(&req).err(), Some(HostError::InvalidSymbolName));
    let mut req = create_request(1, "libfoo");
    req.library_paths = vec!["/a".to_string(), "/b\0".to_string()];
    assert_eq!(
        host.begin_create_service(&req).err(),
        Some(HostError::Namespace(LoaderError::InvalidLibraryPaths))
    );
    let mut req = create_request(1, "libfoo");
    req.permitted_libs_dir = "\0".to_string();
    assert_eq!(
        host.begin_create_service(&req).err(),
        Some(HostError::Namespace(LoaderError::InvalidPermittedLibsDir))
    );
    let ns = host.begin_create_service(&create_request(1, "libfoo")).unwrap();
    assert_eq!(ns.name, "native_app_1-0");
}

#[test]
fn namespace_names_are_unique_and_counted() {
    let mut factory = NamespaceFactory::new("base".to_string());
    let paths = vec!["/x".to_string()];
    let a = factory.create_linker_namespace(&paths, "/p").unwrap();
    let b = factory.create_linker_namespace(&paths, "/p").unwrap();
    assert_eq!(a.name, "base-0");
    assert_eq!(b.name, "base-1");
    assert_eq!(factory.serial(), 2);
    assert!(factory.create_linker_namespace(&vec!["\0".to_string()], "/p").is_err());
    assert_eq!(factory.serial(), 2);
    let empty = factory.create_linker_namespace(&Vec::new(), "").unwrap();
    assert_eq!(empty.library_path, "");
    let mut bad = NamespaceFactory::new("a\0b".to_string());
    assert_eq!(
        bad.create_linker_namespace(&paths, "/p").err(),
        Some(LoaderError::InvalidNamespaceName)
    );
}

#[test]
fn negative_start_seq_names_namespaces() {
    let mut host = NativeActivityThread::new(-42);
    let ns = host.begin_create_service(&create_request(1, "libfoo")).unwrap();
    assert_eq!(ns.name, "native_app_-42-0");
    let mut host = NativeActivityThread::new(i64::MIN);
    let ns = host.begin_create_service(&create_request(1, "libfoo")).unwrap();
    assert_eq!(ns.name, "native_app_-9223372036854775808-0");
}

#[test]
fn trim_background_is_suppressed_for_foreground() {
    let mut host = NativeActivityThread::new(1);
    create(&mut host, 1, all_callbacks());
    assert_eq!(host.process_state(), PROCESS_STATE_UNKNOWN);
    host.set_process_state(PROCESS_STATE_IMPORTANT_FOREGROUND);
    assert_eq!(host.trim_memory(TRIM_MEMORY_BACKGROUND), Ok(vec![]));
    host.set_process_state(2);
    assert_eq!(host.trim_memory(TRIM_MEMORY_BACKGROUND), Ok(vec![]));
    assert_eq!(
        host.trim_memory(TRIM_MEMORY_UI_HIDDEN),
        Ok(vec![HostAction::CallTrimMemory { service_token: 1, level: TRIM_MEMORY_UI_HIDDEN }])
    );
}

#[test]
fn trim_reaches_services_with_entry_point_in_order() {
    let mut host = NativeActivityThread::new(1);
    create(&mut host, 9, all_callbacks());
    create(&mut host, 2, no_callbacks());
    create(&mut host, 5, all_callbacks());
    host.set_process_state(PROCESS_STATE_IMPORTANT_FOREGROUND + 1);
    assert_eq!(
        host.trim_memory(TRIM_MEMORY_BACKGROUND),
        Ok(vec![
            HostAction::CallTrimMemory { service_token: 9, level: TRIM_MEMORY_BACKGROUND },
            HostAction::CallTrimMemory { service_token: 5, level: TRIM_MEMORY_BACKGROUND },
        ])
    );
}

#[test]
fn trim_with_unknown_level_fails() {
    let mut host = NativeActivityThread::new(1);
    create(&mut host, 9, all_callbacks());
    assert_eq!(host.trim_memory(15), Err(HostError::InvalidTrimLevel));
    assert_eq!(host.trim_memory(0), Err(HostError::InvalidTrimLevel));
}

#[test]
fn bind_application_acknowledges_attach() {
    let host = NativeActivityThread::new(77);
    assert_eq!(host.bind_application(), HostAction::FinishAttachApplication { start_seq: 77 });
    assert_eq!(host.start_seq(), 77);
}

#[test]
fn done_kinds_have_interface_codes() {
    assert_eq!(DoneKind::Anon.code(), 0);
    assert_eq!(DoneKind::Stop.code(), 2);
    assert_eq!(DoneKind::Rebind.code(), 3);
    assert_eq!(DoneKind::Unbind.code(), 4);
}
