//! Serving signaled handles.

use ipc_server::exchange::{Action, Exchange};
use ipc_server::headers::{DomainCommandType, IN_DATA_HEADER_MAGIC, OUT_DATA_HEADER_MAGIC};
use ipc_server::holder::ServerHolder;
use ipc_server::manager::ServerManager;
use ipc_server::results::{
    ResultCode, CMIF_INVALID_COMMAND_REQUEST_ID, CMIF_INVALID_INPUT_HEADER, DOMAIN_NOT_FOUND,
    DOMAIN_OBJECT_ID_NOT_ALLOCATED, HIPC_SESSION_CLOSED, INVALID_DOMAIN_COMMAND,
    OS_SESSION_CLOSED, OS_TIMEOUT, SERVER_HOLDERS_FULL, SM_MITM_SHOULD_FORWARD_TO_SESSION,
    UNKNOWN_SIGNALED_HANDLE,
};
use ipc_server::sm::ServiceName;

type Manager = ServerManager<0>;

fn put(buf: &mut [u8; 0x100], at: usize, word: u32) {
    buf[at..at + 4].copy_from_slice(&word.to_le_bytes());
}

fn get(buf: &[u8; 0x100], at: usize) -> u32 {
    u32::from_le_bytes([buf[at], buf[at + 1], buf[at + 2], buf[at + 3]])
}

/// A request or control message outside of domains.
fn message(code: u32, rq_id: u32) -> [u8; 0x100] {
    let mut buf = [0u8; 0x100];
    put(&mut buf, 0, code);
    put(&mut buf, 4, 10);
    put(&mut buf, 16, IN_DATA_HEADER_MAGIC);
    put(&mut buf, 24, rq_id);
    buf
}

/// A request in a domain.
fn domain_message(command: u8, id: u32, rq_id: u32) -> [u8; 0x100] {
    let mut buf = [0u8; 0x100];
    put(&mut buf, 0, 4);
    put(&mut buf, 4, 14);
    buf[16] = command;
    put(&mut buf, 20, id);
    put(&mut buf, 32, IN_DATA_HEADER_MAGIC);
    put(&mut buf, 40, rq_id);
    buf
}

fn failed<T>(value: u32) -> Result<T, ResultCode> {
    Err(ResultCode::new(value))
}

fn finished(value: u32) -> Action {
    Action::Finish { result: failed(value) }
}

const DONE: Action = Action::Finish { result: Ok(()) };

/// A manager with one session: handle 5, object 50.
fn one_session() -> Manager {
    let mut manager = Manager::new();
    assert_eq!(manager.register_session(5, 50, &mut Vec::new()), Ok(()));
    manager
}

/// A manager with one interposed session: handle 5, object 50, behind it 30.
fn one_interposed_session() -> Manager {
    let mut manager = Manager::new();
    let tables = manager.tables_mut();
    let port = ServerHolder::new_server(1, 9, 2, ServiceName::new("a"), true, tables);
    let holder = port.make_new_session(5, 30, 50, tables).unwrap();
    assert_eq!(manager.push_holder(holder, &mut Vec::new()), Ok(()));
    manager
}

/// A manager with one session that is a domain, with its own object as 1 and
/// object 60 as 2.
fn one_domain() -> Manager {
    let mut manager = one_session();
    {
        let mut hipc_manager = manager.hipc_manager(0);
        assert_eq!(hipc_manager.convert_current_object_to_domain(), Ok(1));
    }
    let tables = manager.tables_mut();
    assert_eq!(tables.table_mut(0).allocate_id(), Ok(2));
    let object = ServerHolder::new_domain_session(0, 2, 60, tables);
    assert!(tables.table_mut(0).add_domain(object).is_ok());
    manager
}

/// Serves handle 5 up to the step after its message was received.
fn receive(manager: &mut Manager, buf: &mut [u8; 0x100], came: [u8; 0x100]) -> (Exchange, Action) {
    let (mut ex, action) = manager.process_signaled_handle(5, 0x8000, buf);
    assert_eq!(action, Action::Receive { handle: 5 });
    *buf = came;
    assert!(manager.can_receive(&ex, buf));
    let action = manager.received(&mut ex, buf, Ok(()));
    (ex, action)
}

#[test]
fn unknown_handle_is_refused() {
    let mut manager = one_session();
    let mut buf = [7u8; 0x100];
    let (mut ex, action) = manager.process_signaled_handle(6, 0, &mut buf);
    assert_eq!(action, finished(0x123));
    assert_eq!(UNKNOWN_SIGNALED_HANDLE, 0x123);
    assert_eq!(buf, [7u8; 0x100]);
    assert!(ex.take_released().is_empty());
}

#[test]
fn pointer_buffer_is_told_to_the_kernel() {
    let mut manager = ServerManager::<0x400>::new();
    assert_eq!(manager.register_session(5, 50, &mut Vec::new()), Ok(()));
    let mut buf = [0u8; 0x100];
    let (_, action) = manager.process_signaled_handle(5, 0x12_0000_8000, &mut buf);
    assert_eq!(action, Action::Receive { handle: 5 });
    assert_eq!(get(&buf, 0), 0);
    assert_eq!(get(&buf, 4), 0xC00);
    assert_eq!(get(&buf, 8), 0x8000);
    assert_eq!(get(&buf, 12), 0x0400_0012);
}

#[test]
fn port_accepts_a_session() {
    let mut manager = Manager::new();
    let name = ServiceName::new("a");
    assert_eq!(
        manager.register_server(4, 40, 77, name, false, &mut Vec::new()),
        Ok(())
    );
    let mut buf = [0u8; 0x100];
    let (mut ex, action) = manager.process_signaled_handle(4, 0, &mut buf);
    assert_eq!(action, Action::AcceptSession { port: 4 });
    let action = manager.accepted(&mut ex, &buf, Ok(8));
    assert_eq!(action, Action::CreateObject { new_server_fn: 77 });
    assert_eq!(manager.created(&mut ex, &buf, 80), DONE);
    assert_eq!(manager.holder_count(), 2);
    assert_eq!(manager.holder(1).info.handle, 8);
    assert_eq!(manager.holder(1).server, 80);
    assert!(!manager.holder(1).is_mitm_service);
}

#[test]
fn interposer_acknowledges_a_session() {
    let mut manager = Manager::new();
    let name = ServiceName::new("a");
    assert_eq!(
        manager.register_server(4, 40, 77, name, true, &mut Vec::new()),
        Ok(())
    );
    let mut buf = [0u8; 0x100];
    let (mut ex, _) = manager.process_signaled_handle(4, 0, &mut buf);
    let action = manager.accepted(&mut ex, &buf, Ok(8));
    assert_eq!(action, Action::AcknowledgeMitm { service_name: name });
    let action = manager.acknowledged(&mut ex, &buf, Ok(30));
    assert_eq!(action, Action::CreateObject { new_server_fn: 77 });
    assert_eq!(manager.created(&mut ex, &buf, 80), DONE);
    assert_eq!(manager.holder(1).forward_handle, 30);
    assert!(manager.holder(1).is_mitm_service);
    assert!(manager.holder(1).service_name.is_empty());

    let (mut ex, _) = manager.process_signaled_handle(4, 0, &mut buf);
    assert_eq!(manager.accepted(&mut ex, &buf, failed(9)), finished(9));
    let (mut ex, _) = manager.process_signaled_handle(4, 0, &mut buf);
    manager.accepted(&mut ex, &buf, Ok(9));
    assert_eq!(manager.acknowledged(&mut ex, &buf, failed(3)), finished(3));
    assert_eq!(manager.holder_count(), 2);
}

#[test]
fn port_without_a_function_accepts_nothing() {
    let mut manager = Manager::new();
    let name = ServiceName::empty();
    let mut port = ServerHolder::new_server(4, 40, 77, name, false, manager.tables_mut());
    port.new_server_fn = None;
    assert_eq!(manager.push_holder(port, &mut Vec::new()), Ok(()));
    let mut buf = [0u8; 0x100];
    let (mut ex, _) = manager.process_signaled_handle(4, 0, &mut buf);
    assert_eq!(
        manager.accepted(&mut ex, &buf, Ok(8)),
        finished(HIPC_SESSION_CLOSED)
    );
}

#[test]
fn accepted_session_without_room_is_released() {
    let mut manager = Manager::new();
    let name = ServiceName::empty();
    assert_eq!(
        manager.register_server(4, 40, 77, name, false, &mut Vec::new()),
        Ok(())
    );
    for i in 0..63 {
        assert_eq!(manager.register_session(100 + i, 1, &mut Vec::new()), Ok(()));
    }
    let mut buf = [0u8; 0x100];
    let (mut ex, _) = manager.process_signaled_handle(4, 0, &mut buf);
    manager.accepted(&mut ex, &buf, Ok(8));
    assert_eq!(manager.created(&mut ex, &buf, 80), finished(SERVER_HOLDERS_FULL));
    let released = ex.take_released();
    assert_eq!(released.len(), 1);
    assert_eq!(released[0].info.handle, 8);
}

#[test]
fn request_is_served() {
    let mut manager = one_session();
    let mut buf = [0u8; 0x100];
    let (mut ex, action) = receive(&mut manager, &mut buf, message(4, 2));
    assert_eq!(action, Action::ListCommands { object: 50 });
    let commands = vec![1, 2, 3];
    assert!(manager.can_list(&ex, &buf, &commands));
    let action = manager.listed(&mut ex, &mut buf, commands);
    assert_eq!(action, Action::CallCommand { object: 50, command: 1 });
    buf = [9u8; 0x100];
    assert!(manager.can_call(&ex, &buf, Ok(())));
    let action = manager.called(&mut ex, &mut buf, Ok(()));
    assert_eq!(action, Action::Reply { handle: 5 });
    assert_eq!(buf, [9u8; 0x100]);
    assert_eq!(manager.replied(&mut ex, &buf, Ok(())), DONE);
    assert_eq!(manager.holder_count(), 1);
}

#[test]
fn commands_with_the_same_id_are_all_called() {
    let mut manager = one_session();
    let mut buf = [0u8; 0x100];
    let (mut ex, _) = receive(&mut manager, &mut buf, message(4, 2));
    let action = manager.listed(&mut ex, &mut buf, vec![2, 1, 2]);
    assert_eq!(action, Action::CallCommand { object: 50, command: 0 });
    let action = manager.called(&mut ex, &mut buf, failed(0x55));
    assert_eq!(action, Action::CallCommand { object: 50, command: 2 });
    assert_eq!(get(&buf, 24), 0x55);
    let action = manager.called(&mut ex, &mut buf, Ok(()));
    assert_eq!(action, Action::Reply { handle: 5 });
}

#[test]
fn missing_command_is_answered() {
    let mut manager = one_session();
    let mut buf = [0u8; 0x100];
    let (mut ex, _) = receive(&mut manager, &mut buf, message(6, 2));
    let action = manager.listed(&mut ex, &mut buf, vec![1, 3]);
    assert_eq!(action, Action::Reply { handle: 5 });
    assert_eq!(get(&buf, 0), 6);
    assert_eq!(get(&buf, 16), OUT_DATA_HEADER_MAGIC);
    assert_eq!(get(&buf, 20), 1);
    assert_eq!(get(&buf, 24), CMIF_INVALID_COMMAND_REQUEST_ID);
}

#[test]
fn failed_command_is_answered() {
    let mut manager = one_session();
    let mut buf = [0u8; 0x100];
    let (mut ex, _) = receive(&mut manager, &mut buf, message(4, 2));
    manager.listed(&mut ex, &mut buf, vec![2]);
    let result = failed(SM_MITM_SHOULD_FORWARD_TO_SESSION);
    assert!(manager.can_call(&ex, &buf, result));
    let action = manager.called(&mut ex, &mut buf, result);
    assert_eq!(action, Action::Reply { handle: 5 });
    assert_eq!(get(&buf, 24), SM_MITM_SHOULD_FORWARD_TO_SESSION);
}

#[test]
fn answer_without_room_is_seen() {
    let mut manager = one_session();
    let mut buf = [0u8; 0x100];
    let (mut ex, action) = receive(&mut manager, &mut buf, message(4, 0));
    assert_eq!(action, Action::ListCommands { object: 50 });
    assert!(manager.can_list(&ex, &buf, &vec![9]));
    assert!(manager.can_list(&ex, &buf, &vec![0]));
    ex.context_mut().out_params.data_size = 0x100;
    assert!(!manager.can_list(&ex, &buf, &vec![9]));
    assert!(manager.can_list(&ex, &buf, &vec![0]));
    manager.listed(&mut ex, &mut buf, vec![0]);
    assert!(!manager.can_call(&ex, &buf, failed(1)));
    assert!(manager.can_call(&ex, &buf, Ok(())));
    assert!(!manager.can_forward(&ex, &buf, failed(1)));
    assert!(!manager.can_call_control(&ex, &buf, failed(1)));
}

#[test]
fn interposer_forwards_what_it_does_not_have() {
    let mut manager = one_interposed_session();
    let mut buf = [0u8; 0x100];
    let came = message(4, 2);
    let (mut ex, _) = receive(&mut manager, &mut buf, came);
    buf = [9u8; 0x100];
    let action = manager.listed(&mut ex, &mut buf, vec![1]);
    assert_eq!(action, Action::Forward { handle: 30 });
    assert_eq!(buf, came);
    buf = [8u8; 0x100];
    let action = manager.forwarded(&mut ex, &mut buf, Ok(()));
    assert_eq!(action, Action::Reply { handle: 5 });
    assert_eq!(buf, [8u8; 0x100]);
}

#[test]
fn interposer_forwards_what_a_command_leaves_to_it() {
    let mut manager = one_interposed_session();
    let mut buf = [0u8; 0x100];
    let came = message(4, 2);
    let (mut ex, _) = receive(&mut manager, &mut buf, came);
    manager.listed(&mut ex, &mut buf, vec![2]);
    buf = [9u8; 0x100];
    let result = failed(SM_MITM_SHOULD_FORWARD_TO_SESSION);
    let action = manager.called(&mut ex, &mut buf, result);
    assert_eq!(action, Action::Forward { handle: 30 });
    assert_eq!(buf, came);
    let action = manager.forwarded(&mut ex, &mut buf, failed(0x77));
    assert_eq!(action, Action::Reply { handle: 5 });
    assert_eq!(get(&buf, 16), OUT_DATA_HEADER_MAGIC);
    assert_eq!(get(&buf, 24), 0x77);
}

#[test]
fn new_sessions_of_a_command_are_served() {
    let mut manager = one_session();
    let mut buf = [0u8; 0x100];
    let (mut ex, _) = receive(&mut manager, &mut buf, message(4, 2));
    manager.listed(&mut ex, &mut buf, vec![2]);
    {
        let mut c = manager.command_context(&mut ex, &buf);
        for (handle, object) in [(20, 61), (21, 62)] {
            let holder = ServerHolder::new_session(handle, object, c.tables);
            assert!(c.push_holder(holder).is_ok());
        }
    }
    let action = manager.called(&mut ex, &mut buf, Ok(()));
    assert_eq!(action, Action::Reply { handle: 5 });
    assert_eq!(manager.holder_count(), 3);
    assert_eq!(manager.holder(1).server, 61);
    assert_eq!(manager.holder(1).domain_table, 1);
    assert_eq!(manager.holder(2).server, 62);
    assert_eq!(manager.holder(2).domain_table, 2);
}

#[test]
fn new_sessions_without_room_are_released() {
    let mut manager = one_session();
    for i in 0..62 {
        assert_eq!(manager.register_session(100 + i, 1, &mut Vec::new()), Ok(()));
    }
    let mut buf = [0u8; 0x100];
    let (mut ex, _) = receive(&mut manager, &mut buf, message(4, 2));
    manager.listed(&mut ex, &mut buf, vec![2]);
    {
        let mut c = manager.command_context(&mut ex, &buf);
        for i in 0..3 {
            let holder = ServerHolder::new_session(20 + i, 61, c.tables);
            assert!(c.push_holder(holder).is_ok());
        }
    }
    let action = manager.called(&mut ex, &mut buf, Ok(()));
    assert_eq!(action, finished(SERVER_HOLDERS_FULL));
    assert_eq!(manager.holder(63).info.handle, 20);
    let released = ex.take_released();
    assert_eq!(released.len(), 2);
    assert_eq!(released[0].info.handle, 21);
    assert_eq!(released[1].info.handle, 22);
}

#[test]
fn domain_requests_reach_their_objects() {
    let mut manager = one_domain();
    let mut buf = [0u8; 0x100];
    for (id, object) in [(1, 50), (2, 60), (0, 50)] {
        let (_, action) = receive(&mut manager, &mut buf, domain_message(1, id, 7));
        assert_eq!(action, Action::ListCommands { object });
    }
    let (_, action) = receive(&mut manager, &mut buf, domain_message(1, 3, 7));
    assert_eq!(action, finished(DOMAIN_NOT_FOUND));
    let (_, action) = receive(&mut manager, &mut buf, domain_message(0, 2, 7));
    assert_eq!(action, finished(INVALID_DOMAIN_COMMAND));
    assert_eq!(INVALID_DOMAIN_COMMAND, 0xd3d);
}

#[test]
fn domain_object_that_a_command_gives_out_is_reached() {
    let mut manager = one_domain();
    let mut buf = [0u8; 0x100];
    let (mut ex, _) = receive(&mut manager, &mut buf, domain_message(1, 1, 7));
    manager.listed(&mut ex, &mut buf, vec![7]);
    {
        let c = manager.command_context(&mut ex, &buf);
        let key = c.domain_table;
        let id = c.tables.table_mut(key).allocate_id().unwrap();
        assert_eq!(id, 3);
        let object = ServerHolder::new_domain_session(0, id, 70, c.tables);
        assert!(c.tables.table_mut(key).add_domain(object).is_ok());
    }
    assert_eq!(
        manager.called(&mut ex, &mut buf, Ok(())),
        Action::Reply { handle: 5 }
    );
    let (_, action) = receive(&mut manager, &mut buf, domain_message(1, 3, 7));
    assert_eq!(action, Action::ListCommands { object: 70 });
}

#[test]
fn domain_object_is_closed() {
    let mut manager = one_domain();
    let mut buf = [0u8; 0x100];
    let (mut ex, action) = receive(&mut manager, &mut buf, domain_message(2, 2, 0));
    assert_eq!(action, Action::Release);
    let released = ex.take_released();
    assert_eq!(released.len(), 1);
    assert_eq!(released[0].server, 60);
    assert!(ex.take_released().is_empty());
    let action = manager.holders_released(&mut ex, &buf);
    assert_eq!(action, Action::Reply { handle: 5 });
    assert_eq!(manager.replied(&mut ex, &buf, Ok(())), DONE);
    let (_, action) = receive(&mut manager, &mut buf, domain_message(1, 2, 7));
    assert_eq!(action, finished(DOMAIN_NOT_FOUND));
    let (_, action) = receive(&mut manager, &mut buf, domain_message(2, 2, 0));
    assert_eq!(action, finished(DOMAIN_OBJECT_ID_NOT_ALLOCATED));
    let (_, action) = receive(&mut manager, &mut buf, domain_message(2, 1, 0));
    assert_eq!(action, Action::Reply { handle: 5 });
}

#[test]
fn request_with_an_invalid_header_ends_with_an_error() {
    let mut manager = one_session();
    let mut buf = [0u8; 0x100];
    for code in [4, 5] {
        let mut came = message(code, 1);
        put(&mut came, 16, 0);
        let (_, action) = receive(&mut manager, &mut buf, came);
        assert_eq!(action, finished(CMIF_INVALID_INPUT_HEADER));
    }
}

#[test]
fn message_that_leaves_the_buffer_is_seen() {
    let mut manager = one_session();
    let mut buf = [0u8; 0x100];
    let (ex, _) = manager.process_signaled_handle(5, 0, &mut buf);
    put(&mut buf, 4, 63);
    assert!(!manager.can_receive(&ex, &buf));
    let mut came = message(5, 3);
    put(&mut came, 4, 7);
    assert!(!manager.can_receive(&ex, &came));
    put(&mut came, 4, 8);
    assert!(manager.can_receive(&ex, &came));
}

#[test]
fn messages_of_other_types_are_left() {
    let mut manager = one_session();
    let mut buf = [0u8; 0x100];
    for code in [0, 1, 3] {
        let (_, action) = receive(&mut manager, &mut buf, message(code, 1));
        assert_eq!(action, DONE);
    }
}

#[test]
fn failing_to_receive() {
    let mut manager = one_session();
    let mut buf = [0u8; 0x100];
    let (mut ex, _) = manager.process_signaled_handle(5, 0, &mut buf);
    assert_eq!(manager.received(&mut ex, &mut buf, failed(0x99)), finished(0x99));
    assert_eq!(manager.holder_count(), 1);
    let (mut ex, _) = manager.process_signaled_handle(5, 0, &mut buf);
    assert_eq!(
        manager.received(&mut ex, &mut buf, failed(OS_SESSION_CLOSED)),
        DONE
    );
    assert_eq!(manager.holder_count(), 0);
    assert_eq!(ex.take_released()[0].info.handle, 5);
}

#[test]
fn closed_session_is_answered_and_goes() {
    for reply in [Ok(()), failed(OS_TIMEOUT), failed(OS_SESSION_CLOSED)] {
        let mut manager = one_session();
        assert_eq!(manager.register_session(6, 66, &mut Vec::new()), Ok(()));
        let mut buf = [0u8; 0x100];
        let (mut ex, action) = receive(&mut manager, &mut buf, message(2, 0));
        assert_eq!(action, Action::Reply { handle: 5 });
        assert_eq!(get(&buf, 0), 2);
        assert_eq!(get(&buf, 4), 0);
        assert_eq!(manager.holder_count(), 2);
        assert_eq!(manager.replied(&mut ex, &buf, reply), DONE);
        assert_eq!(manager.holder_count(), 1);
        assert_eq!(manager.holder(0).info.handle, 6);
        assert_eq!(ex.take_released()[0].server, 50);
    }
}

#[test]
fn failing_to_reply() {
    let mut manager = one_session();
    let mut buf = [0u8; 0x100];
    let (mut ex, _) = receive(&mut manager, &mut buf, message(2, 0));
    assert_eq!(manager.replied(&mut ex, &buf, failed(0x99)), finished(0x99));
    assert_eq!(manager.holder_count(), 1);
}

#[test]
fn control_commands_are_called() {
    let mut manager = one_session();
    let mut buf = [0u8; 0x100];
    for rq_id in 0..5 {
        let (mut ex, action) = receive(&mut manager, &mut buf, message(5, rq_id));
        let command = rq_id as usize;
        assert_eq!(action, Action::CallControl { index: 0, command });
        assert!(manager.can_call_control(&ex, &buf, Ok(())));
        let action = manager.control_called(&mut ex, &mut buf, Ok(()), 0, 0);
        assert_eq!(action, Action::Reply { handle: 5 });
    }
    assert_eq!(manager.holder_count(), 1);
}

#[test]
fn missing_control_command_is_answered() {
    let mut manager = one_session();
    let mut buf = [0u8; 0x100];
    let (_, action) = receive(&mut manager, &mut buf, message(7, 5));
    assert_eq!(action, Action::Reply { handle: 5 });
    assert_eq!(get(&buf, 0), 7);
    assert_eq!(get(&buf, 16), OUT_DATA_HEADER_MAGIC);
    assert_eq!(get(&buf, 20), 1);
    assert_eq!(get(&buf, 24), CMIF_INVALID_COMMAND_REQUEST_ID);
}

#[test]
fn failed_control_command_is_answered() {
    let mut manager = one_session();
    let mut buf = [0u8; 0x100];
    let (mut ex, _) = receive(&mut manager, &mut buf, message(5, 1));
    let action = manager.control_called(&mut ex, &mut buf, failed(0xBAD1), 0, 0);
    assert_eq!(action, Action::Reply { handle: 5 });
    assert_eq!(get(&buf, 24), 0xBAD1);
}

#[test]
fn cloned_session_is_served_beside_the_first() {
    let mut manager = one_session();
    let mut buf = [0u8; 0x100];
    let (mut ex, _) = receive(&mut manager, &mut buf, message(5, 2));
    let action = manager.control_called(&mut ex, &mut buf, Ok(()), 20, 0);
    assert_eq!(action, Action::Reply { handle: 5 });
    assert_eq!(manager.holder_count(), 2);
    assert_eq!(manager.holder(1).info.handle, 20);
    assert_eq!(manager.holder(1).server, 50);
    assert_eq!(manager.holder(1).domain_table, manager.holder(0).domain_table);
    assert_eq!(manager.object_uses(50), 2);
}

#[test]
fn cloned_session_without_room_is_released() {
    let mut manager = one_session();
    for i in 0..63 {
        assert_eq!(manager.register_session(100 + i, 1, &mut Vec::new()), Ok(()));
    }
    let mut buf = [0u8; 0x100];
    let (mut ex, _) = receive(&mut manager, &mut buf, message(5, 2));
    let action = manager.control_called(&mut ex, &mut buf, Ok(()), 20, 0);
    assert_eq!(action, finished(SERVER_HOLDERS_FULL));
    assert_eq!(ex.take_released()[0].info.handle, 20);
}

#[test]
fn first_of_two_holders_with_a_handle_is_served() {
    let mut manager = one_session();
    assert_eq!(manager.register_session(5, 51, &mut Vec::new()), Ok(()));
    let mut buf = [0u8; 0x100];
    let (_, action) = receive(&mut manager, &mut buf, message(4, 0));
    assert_eq!(action, Action::ListCommands { object: 50 });
}

#[test]
fn converted_session_that_a_command_makes_keeps_its_id() {
    let mut manager = one_session();
    let mut buf = [0u8; 0x100];
    let (mut ex, _) = receive(&mut manager, &mut buf, message(4, 2));
    manager.listed(&mut ex, &mut buf, vec![2]);
    {
        let mut c = manager.command_context(&mut ex, &buf);
        let mut holder = ServerHolder::new_session(20, 61, c.tables);
        assert_eq!(holder.convert_to_domain(c.tables), Ok(1));
        assert!(c.push_holder(holder).is_ok());
    }
    manager.called(&mut ex, &mut buf, Ok(()));
    assert_eq!(manager.holder(1).info.domain_object_id, 1);
    let key = manager.holder(1).domain_table;
    assert_eq!(manager.tables_mut().table_mut(key).allocate_id(), Ok(2));
}

#[test]
fn message_for_no_holder_is_left() {
    let mut manager = Manager::new();
    let mut buf = [7u8; 0x100];
    let mut ex = Exchange::new(5, 0);
    let action = manager.handle_control_command(&mut ex, &mut buf);
    assert_eq!(action, Action::Reply { handle: 5 });
    let mut ex = Exchange::new(5, 0);
    let action = manager.handle_request_command(&mut ex, DomainCommandType::Invalid, &buf);
    assert_eq!(action, Action::Reply { handle: 5 });
    let mut ex = Exchange::new(5, 0);
    let action = manager.handle_request_command(&mut ex, DomainCommandType::SendMessage, &buf);
    assert_eq!(action, Action::Reply { handle: 5 });
    assert_eq!(manager.replied(&mut ex, &buf, Ok(())), DONE);
    assert_eq!(manager.holder_count(), 0);
    assert_eq!(buf, [7u8; 0x100]);
}
