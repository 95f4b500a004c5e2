//! What travels as a command's parameter, and what a server object is.

use vstd::prelude::*;

use crate::context::ObjectInfo;
use crate::sm::MitmProcessInfo;

verus! {

/// A handle that travels with a command: one that is moved to the receiver, or
/// one that is copied.
#[derive(Copy, Clone, PartialEq, Eq, Debug)]
pub struct Handle<const MOVE: bool> {
    pub handle: u32,
}

pub type CopyHandle = Handle<false>;

pub type MoveHandle = Handle<true>;

/// A buffer that travels with a command: its address and its size. `A` holds how
/// it travels, and `S` the size of one whose size is fixed.
#[derive(Copy, Clone, PartialEq, Eq, Debug)]
pub struct Buffer<const A: u8, const S: usize> {
    pub address: u64,
    pub size: u64,
}

/// The process that sent a command.
#[derive(Copy, Clone, PartialEq, Eq, Structural, Debug)]
pub struct ProcessId {
    pub process_id: u64,
}

/// Where an object is reached.
#[derive(Copy, Clone, PartialEq, Eq, Structural, Debug)]
pub struct Session {
    pub object_info: ObjectInfo,
}

impl Session {
    pub fn new() -> (s: Self)
        ensures
            s.object_info == (ObjectInfo { handle: 0, domain_object_id: 0, owns_handle: false }),
    {
        Session { object_info: ObjectInfo::new() }
    }
}

/// A server object: it has commands, each with a request id.
pub trait IObject {
    fn get_session(&mut self) -> &mut Session;

    /// The request ids of the commands, in order.
    fn get_command_table(&self) -> Vec<u32>;
}

/// A server object that can be made on its own.
pub trait IServerObject: IObject + Sized {
    fn new() -> Self;
}

/// A service that is registered under a name.
pub trait IService: IServerObject {
    fn get_name() -> &'static str;

    fn get_max_sesssions() -> i32;
}

/// A service that interposes on another of the same name.
pub trait IMitmService: IServerObject {
    fn get_name() -> &'static str;

    /// Whether to interpose on the sessions of a process.
    fn should_mitm(info: MitmProcessInfo) -> bool;
}

/// A service that is reached through a named port of the kernel.
pub trait INamedPort: IServerObject {
    fn get_port_name() -> &'static str;

    fn get_max_sesssions() -> i32;
}

} // verus!
