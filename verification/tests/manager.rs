//! The server manager: registering, waiting, and releasing.

use ipc_server::holder::{CloseAction, ServerHolder, WaitHandleType};
use ipc_server::manager::{mitm_service_name, service_registration, LoopAction, ServerManager};
use ipc_server::results::{ResultCode, OS_OPERATION_CANCELED, OS_TIMEOUT, SERVER_HOLDERS_FULL};
use ipc_server::sf::{IMitmService, IObject, IServerObject, IService, Session};
use ipc_server::sm::{MitmProcessInfo, ServiceName};

struct Greeter {
    session: Session,
}

impl IObject for Greeter {
    fn get_session(&mut self) -> &mut Session {
        &mut self.session
    }

    fn get_command_table(&self) -> Vec<u32> {
        vec![0]
    }
}

impl IServerObject for Greeter {
    fn new() -> Self {
        Greeter { session: Session::new() }
    }
}

impl IService for Greeter {
    fn get_name() -> &'static str {
        "greet"
    }

    fn get_max_sesssions() -> i32 {
        3
    }
}

impl IMitmService for Greeter {
    fn get_name() -> &'static str {
        "greet"
    }

    fn should_mitm(_info: MitmProcessInfo) -> bool {
        true
    }
}

fn full_manager() -> ServerManager<0> {
    let mut manager = ServerManager::new();
    let mut released = Vec::new();
    for i in 0..64 {
        assert_eq!(manager.register_session(100 + i, i as u64, &mut released), Ok(()));
    }
    assert!(released.is_empty());
    manager
}

#[test]
fn registrations_say_what_to_ask() {
    let registration = service_registration::<Greeter>();
    assert_eq!(registration.service_name, ServiceName::new("greet"));
    assert!(!registration.is_light);
    assert_eq!(registration.max_sessions, 3);
    assert_eq!(mitm_service_name::<Greeter>(), ServiceName::new("greet"));
}

#[test]
fn sessions_get_tables_of_their_own() {
    let mut manager = ServerManager::<0>::new();
    let mut released = Vec::new();
    assert_eq!(manager.register_session(5, 50, &mut released), Ok(()));
    assert_eq!(manager.register_session(6, 60, &mut released), Ok(()));
    assert_eq!(manager.holder_count(), 2);
    assert_eq!(manager.holder(0).domain_table, 0);
    assert_eq!(manager.holder(1).domain_table, 1);
    manager.remove_holder(0, &mut released);
    assert_eq!(released.len(), 1);
    assert_eq!(manager.register_session(7, 70, &mut Vec::new()), Ok(()));
    assert_eq!(manager.holder(1).domain_table, 2);
    manager.release_table(&mut released, 0, 0);
    assert_eq!(released.len(), 1);
    assert_eq!(manager.register_session(8, 80, &mut Vec::new()), Ok(()));
    assert_eq!(manager.holder(2).domain_table, 0);
    assert_eq!(manager.find_holder(7), Some(1));
    assert_eq!(manager.find_holder(5), None);
}

#[test]
fn holder_that_was_made_a_domain_keeps_its_id() {
    let mut manager = ServerManager::<0>::new();
    let mut holder = ServerHolder::new_session(5, 50, manager.tables_mut());
    assert_eq!(holder.convert_to_domain(manager.tables_mut()), Ok(1));
    let second = holder.clone_self(6, 0).unwrap();
    assert_eq!(manager.push_holder(holder, &mut Vec::new()), Ok(()));
    assert_eq!(manager.push_holder(second, &mut Vec::new()), Ok(()));
    let key = manager.holder(0).domain_table;
    assert_eq!(manager.holder(1).domain_table, key);
    assert_eq!(manager.holder(0).info.domain_object_id, 1);
    assert_eq!(manager.tables_mut().table_mut(key).allocate_id(), Ok(2));
}

#[test]
fn full_manager_refuses_holders() {
    let mut manager = full_manager();
    let mut released = Vec::new();
    assert_eq!(
        manager.register_session(1, 2, &mut released),
        Err(ResultCode::new(0x12))
    );
    assert_eq!(SERVER_HOLDERS_FULL, 0x12);
    assert_eq!(released.len(), 1);
    assert_eq!((released[0].info.handle, released[0].server), (1, 2));
    assert!(manager.tables_mut().has(64));
    manager.release_table(&mut released, 0, 0);
    assert!(!manager.tables_mut().has(64));
}

#[test]
fn service_is_registered() {
    let mut manager = ServerManager::<0>::new();
    let mut released = Vec::new();
    let registration = service_registration::<Greeter>();
    let failed = ResultCode::new(9);
    assert_eq!(
        manager.register_service_server(registration, Err(failed), 1, 2, &mut released),
        Err(failed)
    );
    assert_eq!(manager.holder_count(), 0);
    assert_eq!(
        manager.register_service_server(registration, Ok(40), 1, 2, &mut released),
        Ok(())
    );
    let port = manager.holder(0);
    assert_eq!(port.info.handle, 40);
    assert_eq!(port.handle_type, WaitHandleType::Server);
    assert_eq!(port.service_name, ServiceName::new("greet"));
    assert!(!port.is_mitm_service);
    assert_eq!(port.new_server_fn, Some(2));
}

#[test]
fn interposer_is_registered_with_its_query_session() {
    let mut manager = ServerManager::<0>::new();
    let mut released = Vec::new();
    let name = mitm_service_name::<Greeter>();
    let failed = ResultCode::new(9);
    assert_eq!(
        manager.register_mitm_service_server(name, Err(failed), 1, 2, 3, &mut released),
        Err(failed)
    );
    assert_eq!(
        manager.register_mitm_service_server(name, Ok((40, 41)), 1, 2, 3, &mut released),
        Ok(())
    );
    assert!(manager.holder(0).is_mitm_service);
    assert_eq!(manager.holder(0).service_name, name);
    assert_eq!(manager.holder(1).info.handle, 41);
    assert_eq!(manager.holder(1).server, 3);
    assert_eq!(manager.holder(1).handle_type, WaitHandleType::Session);
}

#[test]
fn interposer_without_room_for_its_query_session() {
    let mut manager = full_manager();
    let mut released = Vec::new();
    manager.remove_holder(0, &mut released);
    released.clear();
    let name = ServiceName::new("x");
    assert_eq!(
        manager.register_mitm_service_server(name, Ok((40, 41)), 1, 2, 3, &mut released),
        Err(ResultCode::new(0x12))
    );
    assert_eq!(manager.holder(63).info.handle, 40);
    assert_eq!(released.len(), 1);
    assert_eq!((released[0].info.handle, released[0].server), (41, 3));
}

#[test]
fn named_port_has_no_service_name() {
    let mut manager = ServerManager::<0>::new();
    let mut released = Vec::new();
    let failed = ResultCode::new(9);
    assert_eq!(
        manager.register_named_port_server(Err(failed), 1, 2, &mut released),
        Err(failed)
    );
    assert_eq!(
        manager.register_named_port_server(Ok(40), 1, 2, &mut released),
        Ok(())
    );
    assert!(manager.holder(0).service_name.is_empty());
    assert_eq!(manager.holder(0).handle_type, WaitHandleType::Server);
}

#[test]
fn loop_waits_for_the_handles_and_stops_when_canceled() {
    let mut manager = ServerManager::<0>::new();
    let mut released = Vec::new();
    for handle in [5, 0, 6] {
        assert_eq!(manager.register_session(handle, 1, &mut released), Ok(()));
    }
    assert_eq!(
        manager.loop_process(Ok(())),
        LoopAction::Wait { handles: vec![5, 6] }
    );
    assert_eq!(manager.process_impl(Ok(0)), Ok(5));
    assert_eq!(manager.process_impl(Ok(1)), Ok(6));
    assert_eq!(manager.process_impl(Ok(2)), Ok(0));
    let failed = ResultCode::new(OS_TIMEOUT);
    assert_eq!(manager.process_impl(Err(failed)), Err(failed));
    assert_eq!(
        manager.loop_process(Err(failed)),
        LoopAction::Wait { handles: vec![5, 6] }
    );
    assert_eq!(
        manager.loop_process(Err(ResultCode::new(OS_OPERATION_CANCELED))),
        LoopAction::Stop
    );
}

#[test]
fn domain_objects_are_released_with_the_last_session() {
    let mut manager = ServerManager::<0>::new();
    let mut released = Vec::new();
    assert_eq!(manager.register_session(5, 50, &mut released), Ok(()));
    let second = manager.holder(0).clone_self(6, 0).unwrap();
    assert_eq!(manager.push_holder(second, &mut released), Ok(()));
    let id = manager.tables_mut().table_mut(0).allocate_id().unwrap();
    let object = ServerHolder::new_domain_session(0, id, 51, manager.tables_mut());
    assert!(manager.tables_mut().table_mut(0).add_domain(object).is_ok());
    assert_eq!(manager.find_domain(0, id), Ok(51));
    assert_eq!(manager.object_uses(50), 2);
    assert_eq!(manager.object_uses(51), 1);

    manager.remove_holder(0, &mut released);
    assert_eq!(released.len(), 1);
    assert_eq!(manager.release(&released, 0, 0), CloseAction::Done);
    manager.release_table(&mut released, 0, 0);
    assert_eq!(released.len(), 1);
    assert_eq!(manager.find_domain(0, id), Ok(51));
    released.clear();

    manager.remove_holder(0, &mut released);
    released.push(ServerHolder::new_session(9, 90, manager.tables_mut()));
    assert_eq!(manager.release(&released, 0, 1), CloseAction::Done);
    assert_eq!(
        manager.release(&released, 0, 0),
        CloseAction::CloseHandle { handle: 6 }
    );
    manager.release_table(&mut released, 0, 1);
    assert_eq!(released.len(), 2);
    manager.release_table(&mut released, 0, 0);
    assert_eq!(released.len(), 3);
    assert_eq!(released[0].server, 50);
    assert_eq!(released[1].server, 51);
    assert_eq!(released[2].server, 90);
    assert!(!manager.tables_mut().has(0));
    assert_eq!(manager.release(&released, 1, 0), CloseAction::Done);
    assert_eq!(manager.object_uses(51), 0);
}

#[test]
fn last_of_the_released_holders_closes() {
    let mut manager = ServerManager::<0>::new();
    let released = vec![
        ServerHolder::new_session(5, 50, manager.tables_mut()),
        ServerHolder::new_session(6, 50, manager.tables_mut()),
    ];
    assert_eq!(manager.release(&released, 0, 0), CloseAction::Done);
    assert_eq!(
        manager.release(&released, 1, 0),
        CloseAction::CloseHandle { handle: 6 }
    );
}

#[test]
fn removing_no_holder_changes_nothing() {
    let mut manager = ServerManager::<0>::new();
    let mut released = Vec::new();
    manager.remove_holder(0, &mut released);
    assert!(released.is_empty());
    assert_eq!(manager.holder_count(), 0);
}
