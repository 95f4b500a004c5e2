//! Holders, names and result codes.

use ipc_server::context::ObjectInfo;
use ipc_server::holder::{CloseAction, ServerHolder, WaitHandleType};
use ipc_server::results::{
    ResultCode, DOMAIN_IDS_EXHAUSTED, HIPC_SESSION_CLOSED, UNKNOWN_SIGNALED_HANDLE,
};
use ipc_server::sm::ServiceName;
use ipc_server::tables::DomainTables;

fn session(handle: u32, object: u64) -> ServerHolder {
    ServerHolder::new_session(handle, object, &mut DomainTables::new())
}

fn port(service_name: ServiceName, is_mitm_service: bool) -> ServerHolder {
    let mut tables = DomainTables::new();
    ServerHolder::new_server(4, 9, 77, service_name, is_mitm_service, &mut tables)
}

#[test]
fn result_code_keeps_its_value() {
    assert_eq!(ResultCode::new(0x1BA0A).get_value(), 0x1BA0A);
    assert_eq!(UNKNOWN_SIGNALED_HANDLE, 0x123);
}

#[test]
fn service_names() {
    assert_eq!(ServiceName::new("").value, 0);
    assert!(ServiceName::new("").is_empty());
    assert_eq!(ServiceName::new("sm:").value, 0x3A_6D73);
    assert_eq!(ServiceName::new("abcdefgh").value, 0x6867_6665_6463_6261);
    assert_eq!(ServiceName::new("abcdefghi").value, 0x6867_6665_6463_6261);
    assert!(!ServiceName::new("a").is_empty());
    assert!(ServiceName::empty().is_empty());
}

#[test]
fn session_holders() {
    let mut tables = DomainTables::new();
    let holder = ServerHolder::new_server_session(4, 9, &mut tables);
    assert_eq!(holder, session(4, 9));
    assert!(tables.has(holder.domain_table));
    assert_eq!(holder.info, ObjectInfo::from_handle(4));
    assert_eq!(holder.handle_type, WaitHandleType::Session);
    assert_eq!(holder.forward_handle, 0);
    assert!(!holder.is_mitm_service);
    assert!(holder.service_name.is_empty());
    assert_eq!(
        holder.get_new_server_fn(),
        Err(ResultCode::new(HIPC_SESSION_CLOSED))
    );
    assert_eq!(
        holder.make_new_session(5, 0, 1, &mut tables),
        Err(ResultCode::new(HIPC_SESSION_CLOSED))
    );
    assert_eq!(tables.len(), 1);
}

#[test]
fn domain_holder_does_not_own_its_handle() {
    let holder = ServerHolder::new_domain_session(0, 3, 9, &mut DomainTables::new());
    assert_eq!(holder.info, ObjectInfo::from_domain_object_id(0, 3));
    assert_eq!(holder.close(), CloseAction::Done);
}

#[test]
fn port_makes_sessions() {
    let name = ServiceName::new("test");
    let port = port(name, true);
    assert_eq!(port.handle_type, WaitHandleType::Server);
    assert_eq!(port.get_new_server_fn(), Ok(77));
    let session = port.make_new_session(5, 6, 10, &mut DomainTables::new()).unwrap();
    assert_eq!(session.info, ObjectInfo::from_handle(5));
    assert_eq!(session.server, 10);
    assert_eq!(session.forward_handle, 6);
    assert!(session.is_mitm_service);
    assert!(session.service_name.is_empty());
    assert_eq!(session.new_server_fn, Some(77));
    assert_eq!(session.make_forward_info(), ObjectInfo::from_handle(6));
}

#[test]
fn cloned_holder_shares_object_and_domain() {
    let mut tables = DomainTables::new();
    tables.new_table();
    let mut holder = ServerHolder::new_session(4, 9, &mut tables);
    assert_eq!(holder.convert_to_domain(&mut tables), Ok(1));
    let mut second = holder.clone_self(5, 0).unwrap();
    assert_eq!(second.server, 9);
    assert_eq!(second.domain_table, 1);
    assert_eq!(second.info.handle, 5);
    assert_eq!(second.info.domain_object_id, 1);
    assert!(!second.is_mitm_service);
    assert!(holder.clone_self(5, 6).unwrap().is_mitm_service);
    assert_eq!(second.convert_to_domain(&mut tables), Ok(2));
    assert_eq!(tables.table(holder.domain_table).table[1], 2);
}

#[test]
fn session_becomes_a_domain() {
    let mut tables = DomainTables::new();
    let mut holder = ServerHolder::new_session(4, 9, &mut tables);
    assert_eq!(holder.convert_to_domain(&mut tables), Ok(1));
    assert_eq!(holder.info.domain_object_id, 1);
    assert!(holder.info.owns_handle);
    for _ in 1..64 {
        assert!(tables.table_mut(0).allocate_id().is_ok());
    }
    assert_eq!(
        holder.convert_to_domain(&mut tables),
        Err(ResultCode::new(DOMAIN_IDS_EXHAUSTED))
    );
    assert_eq!(holder.info.domain_object_id, 1);
}

#[test]
fn holders_are_closed_step_by_step() {
    let name = ServiceName::new("test");
    let closing = port(name, false);
    let first = closing.close();
    assert_eq!(first, CloseAction::UnregisterService { service_name: name });
    let second = closing.close_after(first, Ok(())).unwrap();
    assert_eq!(second, CloseAction::CloseHandle { handle: 4 });
    assert_eq!(closing.close_after(second, Ok(())), Ok(CloseAction::Done));
    let failed = Err(ResultCode::new(3));
    assert_eq!(closing.close_after(first, failed), Err(ResultCode::new(3)));

    let mitm = port(name, true);
    assert_eq!(mitm.close(), CloseAction::UninstallMitm { service_name: name });
    assert_eq!(
        session(5, 1).close(),
        CloseAction::CloseHandle { handle: 5 }
    );
}

#[test]
fn only_the_last_use_closes() {
    let holder = session(5, 1);
    assert_eq!(holder.drop(1), CloseAction::CloseHandle { handle: 5 });
    assert_eq!(holder.drop(2), CloseAction::Done);
}
