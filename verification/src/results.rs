//! Result codes: the numbers a command is answered with.

use vstd::prelude::*;

verus! {

/// The outcome of an operation, as it travels in a response. Zero is success.
#[derive(Copy, Clone, PartialEq, Eq, Structural, Debug)]
pub struct ResultCode {
    pub value: u32,
}

/// A request or a control message whose data header has the wrong magic.
pub const CMIF_INVALID_INPUT_HEADER: u32 = 0x1A60A;

/// A request whose id is in no command table.
pub const CMIF_INVALID_COMMAND_REQUEST_ID: u32 = 0x1BA0A;

/// A parameter that cannot travel in the direction asked for.
pub const HIPC_UNSUPPORTED_OPERATION: u32 = 0x20B;

/// A session that cannot make further sessions.
pub const HIPC_SESSION_CLOSED: u32 = 0x25A0B;

/// The other end of a session is gone.
pub const OS_SESSION_CLOSED: u32 = 0xF601;

/// A wait ended without a signal.
pub const OS_TIMEOUT: u32 = 0xEA01;

/// A wait was called off.
pub const OS_OPERATION_CANCELED: u32 = 0xEC01;

/// A command that wants the service behind the interposer to answer.
pub const SM_MITM_SHOULD_FORWARD_TO_SESSION: u32 = 0x7D015;

/// A command context cannot take another new session.
pub const NEW_SESSIONS_FULL: u32 = 23;

/// A server manager cannot take another holder.
pub const SERVER_HOLDERS_FULL: u32 = 0x12;

/// A handle was signaled that no holder has.
pub const UNKNOWN_SIGNALED_HANDLE: u32 = 0x123;

/// A domain request that names no domain command.
pub const INVALID_DOMAIN_COMMAND: u32 = 0xd3d;

/// Every domain object id is taken.
pub const DOMAIN_IDS_EXHAUSTED: u32 = 0xBEBA;

/// A domain table cannot take another domain object.
pub const DOMAINS_FULL: u32 = 0xbaba;

/// No domain object has the id asked for.
pub const DOMAIN_NOT_FOUND: u32 = 0xb90b;

/// A domain object id was given back that is not taken.
pub const DOMAIN_ID_NOT_ALLOCATED: u32 = 0xBEB2;

/// A domain object was given back whose id is not taken.
pub const DOMAIN_OBJECT_ID_NOT_ALLOCATED: u32 = 0xBEB4;

/// A domain object was given back whose id is taken, but no object has it.
pub const DOMAIN_OBJECT_MISSING: u32 = 0xbafa;

/// Copying an object out of a domain is not offered.
pub const COPY_FROM_DOMAIN_UNSUPPORTED: u32 = 0xBAD1;

/// A command context has no room for another handle, domain object or descriptor.
pub const CONTEXT_FULL: u32 = 0xBA0B;

impl ResultCode {
    pub fn new(value: u32) -> (code: Self)
        ensures
            code.value == value,
    {
        ResultCode { value }
    }

    pub fn get_value(&self) -> (value: u32)
        ensures
            value == self.value,
    {
        self.value
    }
}

} // verus!
