//! Releasing holders.

use ipc_server::holder::{CloseAction, ServerHolder};
use ipc_server::manager::ServerManager;
use ipc_server::release::{Release, ReleaseAction};
use ipc_server::results::ResultCode;
use ipc_server::sm::ServiceName;

type Manager = ServerManager<0>;

fn close(action: CloseAction) -> ReleaseAction {
    ReleaseAction::Close { action }
}

#[test]
fn nothing_to_release() {
    let (_, action) = Release::new(Vec::new());
    assert_eq!(action, ReleaseAction::Finish);
}

#[test]
fn name_is_given_up_before_the_handle() {
    let mut manager = Manager::new();
    let name = ServiceName::new("a");
    let port = ServerHolder::new_server(4, 40, 77, name, false, manager.tables_mut());
    let domain_table = port.domain_table;
    let (mut release, action) = Release::new(vec![port]);
    assert_eq!(
        action,
        ReleaseAction::CountUses { object: 40, domain_table }
    );
    let action = manager.uses_counted(&mut release, 0, 0);
    assert_eq!(action, close(CloseAction::UnregisterService { service_name: name }));
    let action = manager.closed(&mut release, Ok(()));
    assert_eq!(action, Ok(close(CloseAction::CloseHandle { handle: 4 })));
    assert!(manager.tables_mut().has(domain_table));
    let action = manager.closed(&mut release, Ok(()));
    assert_eq!(action, Ok(ReleaseAction::Finish));
    assert!(!manager.tables_mut().has(domain_table));
}

#[test]
fn failed_close_ends_releasing() {
    let mut manager = Manager::new();
    let session = ServerHolder::new_session(5, 50, manager.tables_mut());
    let (mut release, _) = Release::new(vec![session]);
    let action = manager.uses_counted(&mut release, 0, 0);
    assert_eq!(action, close(CloseAction::CloseHandle { handle: 5 }));
    let failed = ResultCode::new(3);
    assert_eq!(manager.closed(&mut release, Err(failed)), Err(failed));
}

#[test]
fn shared_object_is_not_closed() {
    let mut manager = Manager::new();
    let session = ServerHolder::new_session(5, 50, manager.tables_mut());
    let (mut release, _) = Release::new(vec![session]);
    assert_eq!(
        manager.uses_counted(&mut release, 1, 1),
        ReleaseAction::Finish
    );
    assert!(manager.tables_mut().has(0));
}

#[test]
fn objects_of_a_domain_come_before_the_next_holder() {
    let mut manager = Manager::new();
    let tables = manager.tables_mut();
    let first = ServerHolder::new_session(5, 50, tables);
    let second = ServerHolder::new_session(6, 60, tables);
    let id = tables.table_mut(0).allocate_id().unwrap();
    let object = ServerHolder::new_domain_session(0, id, 51, tables);
    let object_table = object.domain_table;
    assert!(tables.table_mut(0).add_domain(object).is_ok());

    let (mut release, _) = Release::new(vec![first, second]);
    manager.uses_counted(&mut release, 0, 0);
    let action = manager.closed(&mut release, Ok(()));
    assert_eq!(
        action,
        Ok(ReleaseAction::CountUses { object: 51, domain_table: object_table })
    );
    let action = manager.uses_counted(&mut release, 0, 0);
    assert_eq!(
        action,
        ReleaseAction::CountUses { object: 60, domain_table: 1 }
    );
    let action = manager.uses_counted(&mut release, 0, 0);
    assert_eq!(action, close(CloseAction::CloseHandle { handle: 6 }));
    assert_eq!(
        manager.closed(&mut release, Ok(())),
        Ok(ReleaseAction::Finish)
    );
    for key in 0..3 {
        assert!(!manager.tables_mut().has(key));
    }
}

#[test]
fn all_holders_are_taken_out_in_order() {
    let mut manager = Manager::new();
    for i in 0..64 {
        assert!(manager.has_room());
        assert_eq!(manager.register_session(100 + i, 1, &mut Vec::new()), Ok(()));
    }
    assert!(!manager.has_room());
    let mut released = Vec::new();
    manager.remove_all(&mut released);
    assert_eq!(manager.holder_count(), 0);
    assert_eq!(released.len(), 64);
    assert_eq!(released[0].info.handle, 100);
    assert_eq!(released[63].info.handle, 163);
}
