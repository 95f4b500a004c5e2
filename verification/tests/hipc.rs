//! The control commands, and the questions to an interposer.

use ipc_server::context::ObjectInfo;
use ipc_server::hipc::{
    control_command_at, control_command_table, ControlCommand, HipcManager, MitmQueryServer,
    SHOULD_MITM,
};
use ipc_server::holder::ServerHolder;
use ipc_server::results::{ResultCode, COPY_FROM_DOMAIN_UNSUPPORTED};
use ipc_server::sf::{IMitmService, IObject, IServerObject, MoveHandle, Session};
use ipc_server::sm::{MitmProcessInfo, ServiceName};
use ipc_server::tables::DomainTables;

struct OnlyEven {
    session: Session,
}

impl IObject for OnlyEven {
    fn get_session(&mut self) -> &mut Session {
        &mut self.session
    }

    fn get_command_table(&self) -> Vec<u32> {
        vec![1]
    }
}

impl IServerObject for OnlyEven {
    fn new() -> Self {
        OnlyEven { session: Session::new() }
    }
}

impl IMitmService for OnlyEven {
    fn get_name() -> &'static str {
        "even"
    }

    fn should_mitm(info: MitmProcessInfo) -> bool {
        info.process_id % 2 == 0
    }
}

#[test]
fn control_commands_have_their_ids() {
    assert_eq!(control_command_table(), vec![0, 1, 2, 3, 4]);
    let commands = [
        ControlCommand::ConvertCurrentObjectToDomain,
        ControlCommand::CopyFromCurrentDomain,
        ControlCommand::CloneCurrentObject,
        ControlCommand::QueryPointerBufferSize,
        ControlCommand::CloneCurrentObjectEx,
    ];
    for (place, command) in commands.iter().enumerate() {
        assert_eq!(control_command_at(place), *command);
    }
}

#[test]
fn manager_converts_to_a_domain() {
    let mut tables = DomainTables::new();
    let mut holder = ServerHolder::new_session(4, 9, &mut tables);
    {
        let mut manager = HipcManager::new(&mut holder, &mut tables, 0x400);
        assert_eq!(IObject::get_command_table(&manager), control_command_table());
        assert_eq!(manager.get_session().object_info, ObjectInfo::new());
        assert_eq!(manager.convert_current_object_to_domain(), Ok(1));
        assert!(!manager.has_cloned_object());
    }
    assert_eq!(holder.info.domain_object_id, 1);
    assert_eq!(tables.table(0).table[0], 1);
}

#[test]
fn manager_does_not_copy_from_a_domain() {
    let mut tables = DomainTables::new();
    let mut holder = ServerHolder::new_session(4, 9, &mut tables);
    let mut manager = HipcManager::new(&mut holder, &mut tables, 0x400);
    assert_eq!(
        manager.copy_from_current_domain(1),
        Err(ResultCode::new(0xBAD1))
    );
    assert_eq!(COPY_FROM_DOMAIN_UNSUPPORTED, 0xBAD1);
}

#[test]
fn manager_tells_the_pointer_buffer_size() {
    let mut tables = DomainTables::new();
    let mut holder = ServerHolder::new_session(4, 9, &mut tables);
    let mut manager = HipcManager::new(&mut holder, &mut tables, 0x1_0234);
    assert_eq!(manager.query_pointer_buffer_size(), Ok(0x234));
}

#[test]
fn manager_clones_a_session() {
    let mut tables = DomainTables::new();
    let mut holder = ServerHolder::new_session(4, 9, &mut tables);
    let mut manager = HipcManager::new(&mut holder, &mut tables, 0);
    let failed = ResultCode::new(5);
    assert!(manager.forward_needed(&Ok((20, 21))).is_none());
    assert_eq!(manager.clone_current_object(Err(failed), Ok(0)), Err(failed));
    assert!(!manager.has_cloned_object());
    assert_eq!(
        manager.clone_current_object(Ok((20, 21)), Err(failed)),
        Ok(MoveHandle { handle: 21 })
    );
    assert!(manager.has_cloned_object());
    let second = manager.clone_object().unwrap();
    assert_eq!(second.info.handle, 20);
    assert_eq!(second.forward_handle, 0);
    assert!(!second.is_mitm_service);
}

#[test]
fn manager_clones_an_interposed_session() {
    let mut tables = DomainTables::new();
    let port = ServerHolder::new_server(1, 9, 2, ServiceName::new("a"), true, &mut tables);
    let mut holder = port.make_new_session(4, 30, 9, &mut tables).unwrap();
    let mut manager = HipcManager::new(&mut holder, &mut tables, 0);
    let failed = ResultCode::new(5);
    assert_eq!(
        manager.forward_needed(&Ok((20, 21))),
        Some(ObjectInfo::from_handle(30))
    );
    assert!(manager.forward_needed(&Err(failed)).is_none());
    assert_eq!(
        manager.clone_current_object_ex(1, Ok((20, 21)), Err(failed)),
        Err(failed)
    );
    assert!(!manager.has_cloned_object());
    assert_eq!(
        manager.clone_current_object_ex(1, Ok((20, 21)), Ok(31)),
        Ok(MoveHandle { handle: 21 })
    );
    let second = manager.clone_object().unwrap();
    assert_eq!(second.forward_handle, 31);
    assert!(second.is_mitm_service);
}

#[test]
fn query_server_asks_the_interposer() {
    let mut server = MitmQueryServer::<OnlyEven>::new();
    assert_eq!(IObject::get_command_table(&server), vec![SHOULD_MITM]);
    assert_eq!(SHOULD_MITM, 65000);
    assert_eq!(server.get_session().object_info, ObjectInfo::new());
    let mut info = MitmProcessInfo {
        process_id: 2,
        program_id: 0,
        keys_held: 0,
        override_flags: 0,
    };
    assert_eq!(server.should_mitm(info), Ok(true));
    info.process_id = 3;
    assert_eq!(server.should_mitm(info), Ok(false));
}
