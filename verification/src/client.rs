//! Writing commands that are sent, as a client does.

use vstd::prelude::*;

use crate::context::CommandContext;
use crate::headers::CommandType;
use crate::message::write_outline;

verus! {

use crate::context::{CommandInModel, CommandModel};
use crate::message::{outline_for, Outline};

/// The outline of a command with so many bytes of data.
pub open spec fn command_outline(
    ctx: CommandModel,
    command_type: CommandType,
    data_size: int,
) -> Outline {
    outline_for(
        command_type,
        ctx.in_params.send_process_id,
        ctx.in_params.copy_handles,
        ctx.in_params.move_handles,
        ctx,
        data_size,
    )
}

/// Writes the outline of a command: its headers, its handles and the
/// descriptors that the context holds.
pub fn write_command_on_ipc_buffer(
    ctx: &mut CommandContext,
    ipc_buf: &mut [u8; 0x100],
    command_type: CommandType,
    data_size: u32,
)
    requires
        command_outline(old(ctx)@, command_type, data_size as int).writable(),
    ensures
        final(ipc_buf)@ == command_outline(old(ctx)@, command_type, data_size as int).put(
            old(ipc_buf)@,
        ),
        final(ctx)@ == (CommandModel {
            in_params: CommandInModel {
                data_words_offset: command_outline(
                    old(ctx)@,
                    command_type,
                    data_size as int,
                ).shape().data_words_at() as usize,
                ..old(ctx)@.in_params
            },
            ..old(ctx)@
        }),
{
    let offset: usize = write_outline(
        ipc_buf,
        command_type,
        ctx.in_params.send_process_id,
        &ctx.in_params.copy_handles,
        &ctx.in_params.move_handles,
        ctx,
        data_size,
    );
    ctx.in_params.data_words_offset = offset;
    assert(ctx@.in_params =~= (CommandInModel {
        data_words_offset: offset,
        ..old(ctx)@.in_params
    }));
}

} // verus!
