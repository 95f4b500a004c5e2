//! Domain tables and lists of holders.

use ipc_server::domain::DomainTable;
use ipc_server::holder::ServerHolder;
use ipc_server::holders::HolderVec;
use ipc_server::results::{
    ResultCode, DOMAINS_FULL, DOMAIN_IDS_EXHAUSTED, DOMAIN_ID_NOT_ALLOCATED, DOMAIN_NOT_FOUND,
    DOMAIN_OBJECT_ID_NOT_ALLOCATED, DOMAIN_OBJECT_MISSING,
};
use ipc_server::tables::DomainTables;

fn domain_object(id: u32, server: u64) -> ServerHolder {
    ServerHolder::new_domain_session(0, id, server, &mut DomainTables::new())
}

fn session(server: u64) -> ServerHolder {
    ServerHolder::new_session(1, server, &mut DomainTables::new())
}

fn code<T>(value: u32) -> Result<T, ResultCode> {
    Err(ResultCode::new(value))
}

#[test]
fn ids_are_given_out_in_order() {
    let mut table = DomainTable::new();
    for id in 1..=64 {
        assert_eq!(table.allocate_id(), Ok(id));
    }
    assert_eq!(table.allocate_id(), code(0xBEBA));
    assert_eq!(DOMAIN_IDS_EXHAUSTED, 0xBEBA);
}

#[test]
fn freed_id_is_given_out_again() {
    let mut table = DomainTable::new();
    for _ in 0..5 {
        assert!(table.allocate_id().is_ok());
    }
    assert_eq!(table.deallocate_id(2), Ok(()));
    assert_eq!(table.deallocate_id(4), Ok(()));
    assert_eq!(table.allocate_id(), Ok(2));
    assert_eq!(table.allocate_id(), Ok(4));
    assert_eq!(table.allocate_id(), Ok(6));
}

#[test]
fn id_that_is_not_taken_cannot_be_freed() {
    let mut table = DomainTable::new();
    assert_eq!(table.deallocate_id(1), code(DOMAIN_ID_NOT_ALLOCATED));
    assert_eq!(DOMAIN_ID_NOT_ALLOCATED, 0xBEB2);
}

#[test]
fn table_with_slots_out_of_order() {
    let mut table = DomainTable::new();
    table.table[0] = 5;
    table.table[1] = 1;
    assert_eq!(table.allocate_id(), Ok(2));
    assert_eq!(table.table[2], 2);
}

#[test]
fn added_object_is_found() {
    let mut table = DomainTable::new();
    let first = table.allocate_id().unwrap();
    let second = table.allocate_id().unwrap();
    assert!(table
        .add_domain(domain_object(first, 100))
        .is_ok());
    assert!(table
        .add_domain(domain_object(second, 200))
        .is_ok());
    assert_eq!(table.find_domain(first), Ok(100));
    assert_eq!(table.find_domain(second), Ok(200));
    assert_eq!(table.find_domain(3), code(DOMAIN_NOT_FOUND));
    assert_eq!(DOMAIN_NOT_FOUND, 0xb90b);
}

#[test]
fn deallocated_object_is_gone() {
    let mut table = DomainTable::new();
    for server in [100, 200, 300] {
        let id = table.allocate_id().unwrap();
        assert!(table
            .add_domain(domain_object(id, server))
            .is_ok());
    }
    let gone = table.deallocate_domain(2).unwrap();
    assert_eq!(gone.server, 200);
    assert_eq!(table.find_domain(2), code(DOMAIN_NOT_FOUND));
    assert_eq!(table.find_domain(1), Ok(100));
    assert_eq!(table.find_domain(3), Ok(300));
    assert_eq!(table.allocate_id(), Ok(2));
}

#[test]
fn objects_that_cannot_be_deallocated() {
    let mut table = DomainTable::new();
    assert_eq!(table.deallocate_domain(1), code(0xBEB4));
    assert_eq!(DOMAIN_OBJECT_ID_NOT_ALLOCATED, 0xBEB4);
    let id = table.allocate_id().unwrap();
    assert_eq!(table.deallocate_domain(id), code(0xbafa));
    assert_eq!(DOMAIN_OBJECT_MISSING, 0xbafa);
    assert_eq!(table.deallocate_domain(0), code(0xbafa));
}

#[test]
fn full_table_refuses_objects() {
    let mut table = DomainTable::new();
    for i in 0..64 {
        assert!(table
            .add_domain(domain_object(i, 1))
            .is_ok());
    }
    let refused = table
        .add_domain(domain_object(64, 9))
        .unwrap_err();
    assert_eq!(refused.code, ResultCode::new(0xbaba));
    assert_eq!(DOMAINS_FULL, 0xbaba);
    assert_eq!(refused.holder.server, 9);
}

#[test]
fn list_of_holders_keeps_its_order() {
    let mut list = HolderVec::new();
    assert_eq!(list.len(), 0);
    assert!(list.take_out(0).is_none());
    for server in 0..64 {
        assert!(list.push(session(server)).is_ok());
    }
    let back = list.push(session(64)).unwrap_err();
    assert_eq!(back.server, 64);
    assert_eq!(list.take_out(1).unwrap().server, 1);
    assert_eq!(list.len(), 63);
    assert_eq!(list.get(0).server, 0);
    assert_eq!(list.get(1).server, 2);
    let mut moved = Vec::new();
    list.move_all(&mut moved);
    assert_eq!(list.len(), 0);
    assert_eq!(moved.len(), 63);
    assert_eq!(moved[62].server, 63);
}

#[test]
fn tables_have_keys_of_their_own() {
    let mut tables = DomainTables::new();
    assert!(!tables.has(0));
    assert_eq!(tables.new_table(), 0);
    assert_eq!(tables.new_table(), 1);
    assert_eq!(tables.table_mut(1).allocate_id(), Ok(1));
    assert!(tables
        .table_mut(1)
        .add_domain(domain_object(1, 100))
        .is_ok());
    assert_eq!(tables.table(1).find_domain(1), Ok(100));
    assert_eq!(tables.table(0).find_domain(1), code(DOMAIN_NOT_FOUND));
    let mut objects = Vec::new();
    tables.free(1, &mut objects);
    assert_eq!(objects.len(), 1);
    assert_eq!(objects[0].server, 100);
    assert!(!tables.has(1));
    tables.free(0, &mut objects);
    assert_eq!(tables.new_table(), 0);
    assert_eq!(tables.new_table(), 1);
    assert_eq!(tables.new_table(), 2);
    assert_eq!(tables.len(), 3);
    assert_eq!(tables.table(1).find_domain(1), code(DOMAIN_NOT_FOUND));
}

#[test]
fn freeing_undoes_allocating_in_any_table() {
    let mut table = DomainTable::new();
    table.table[0] = 5;
    table.table[1] = 5;
    table.table[2] = 1;
    let before = table.table;
    assert_eq!(table.allocate_id(), Ok(2));
    assert_eq!(table.deallocate_id(2), Ok(()));
    assert_eq!(table.table, before);
}
