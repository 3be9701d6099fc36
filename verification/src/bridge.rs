//! The decisions of the two call surfaces, over plain values.
//!
//! A processing call is split around the engine: [`begin_process`] validates
//! and stages the input, the caller runs the engine on the staged frame, and
//! [`finish_process`] writes back what the engine left, whether it succeeded
//! or not, and settles the status. Creating a handle is split the same way
//! around the building of the engine.

use crate::error::BridgeError;
use crate::frame::{
    deliver_error, frame_length, length_error, splice, stage_error, FrameBuffer,
};
use crate::codec::{decode_samples, encode_samples};
use crate::handle::{DeepFilterNetState, HandleTable, TOKEN_LIMIT};
use vstd::prelude::*;

verus! {

/// Status of a processing call that failed: the bit pattern of -1.0.
pub const PROCESS_FAILED: u32 = 0xBF80_0000;

/// The token that a raw 64-bit value stands for; zero if it can stand for none.
pub open spec fn token_of(raw: i64) -> u64 {
    if 1 <= raw <= TOKEN_LIMIT {
        raw as u64
    } else {
        0
    }
}

/// Reads a token from the signed 64-bit value a managed caller holds.
pub fn token_from_raw(raw: i64) -> (token: u64)
    ensures
        token == token_of(raw),
{
    if 1 <= raw && raw <= TOKEN_LIMIT as i64 {
        raw as u64
    } else {
        0
    }
}

/// The signed 64-bit value under which a managed caller holds `token`.
pub fn token_to_raw(token: u64) -> (raw: i64)
    ensures
        raw == if token <= TOKEN_LIMIT {
            token as int
        } else {
            0
        },
        token <= TOKEN_LIMIT ==> token_of(raw) == token,
        raw != 0 <==> 1 <= token <= TOKEN_LIMIT,
{
    if token <= TOKEN_LIMIT {
        token as i64
    } else {
        0
    }
}

/// Registers an engine that was built, if one was. Gives the new token, or
/// zero when there is no engine or the table hands out no more tokens; the
/// table is then unchanged.
pub fn finish_create<E>(table: &mut HandleTable<E>, built: Option<DeepFilterNetState<E>>) -> (token:
    u64)
    requires
        old(table).wf(),
    ensures
        final(table).wf(),
        match built {
            Some(state) if old(table).issued() < TOKEN_LIMIT => {
                &&& token == old(table).issued() + 1
                &&& final(table).issued() == token
                &&& final(table)@ == old(table)@.insert(token, state)
            },
            _ => {
                &&& token == 0
                &&& final(table).issued() == old(table).issued()
                &&& final(table)@ == old(table)@
            },
        },
        token != 0 <==> built is Some && old(table).issued() < TOKEN_LIMIT,
        token != 0 ==> {
            &&& 1 <= token <= TOKEN_LIMIT
            &&& !old(table)@.contains_key(token)
            &&& final(table)@.contains_key(token)
            &&& final(table)@[token] == built->0
        },
        old(table).same_except(final(table), token),
        old(table).retired_stay_retired(final(table)),
{
    match built {
        Some(state) => table.create(state),
        None => 0,
    }
}

/// Creating a handle succeeds as long as the table has tokens left: the token
/// is not zero and was in nobody's hands before, it comes back unchanged from
/// the raw value a managed caller holds it under, and it leads to the state
/// that was registered, so to the frame length the engine reported.
pub proof fn lemma_created_handle_is_usable<E>(
    before: &HandleTable<E>,
    after: &HandleTable<E>,
    state: DeepFilterNetState<E>,
)
    requires
        before.wf(),
        before.issued() < TOKEN_LIMIT,
        after@ == before@.insert((before.issued() + 1) as u64, state),
    ensures
        ({
            let token = (before.issued() + 1) as u64;
            &&& token != 0
            &&& !before@.contains_key(token)
            &&& !before.retired(token)
            &&& token_of(token as i64) == token
            &&& after@.contains_key(token_of(token as i64))
            &&& after@[token_of(token as i64)] == state
            &&& after@[token_of(token as i64)].hop_size == state.hop_size
        }),
{
    let token = (before.issued() + 1) as u64;
    if before@.contains_key(token) {
        before.lemma_live_tokens_were_issued(token);
    }
}

/// The first reason to turn away a call that hands sample arrays straight to
/// the engine, if there is one: the handle, then the presence of both arrays.
pub open spec fn frame_call_error(live: bool, input_present: bool, output_present: bool) -> Option<
    BridgeError,
> {
    if !live {
        Some(BridgeError::InvalidHandle)
    } else if !input_present || !output_present {
        Some(BridgeError::NullBuffer)
    } else {
        None
    }
}

/// Checks a call that hands sample arrays straight to the engine: the handle
/// must be live and both arrays present. The table is only read.
pub fn check_frame<E>(
    table: &HandleTable<E>,
    token: u64,
    input_present: bool,
    output_present: bool,
) -> (r: Result<(), BridgeError>)
    requires
        table.wf(),
    ensures
        match r {
            Ok(_) => frame_call_error(table@.contains_key(token), input_present, output_present)
                is None,
            Err(e) => frame_call_error(table@.contains_key(token), input_present, output_present)
                == Some(e),
        },
{
    if !table.contains(token) {
        Err(BridgeError::InvalidHandle)
    } else if !input_present || !output_present {
        Err(BridgeError::NullBuffer)
    } else {
        Ok(())
    }
}

/// The first reason to turn a processing call away before its buffers are
/// looked at, if there is one: the handle, then the lengths.
pub open spec fn admission_error(live: bool, input_length: int, output_length: int) -> Option<
    BridgeError,
> {
    if !live {
        Some(BridgeError::InvalidHandle)
    } else {
        length_error(input_length, output_length)
    }
}

/// Checks the handle and the byte lengths of a processing call, and gives the
/// number of samples in its frame. The table is only read.
pub fn check_process<E>(
    table: &HandleTable<E>,
    state_ptr: i64,
    input_length: i32,
    output_length: i32,
) -> (r: Result<usize, BridgeError>)
    requires
        table.wf(),
    ensures
        match r {
            Ok(n) => admission_error(
                table@.contains_key(token_of(state_ptr)),
                input_length as int,
                output_length as int,
            ) is None && n == input_length / 4,
            Err(e) => admission_error(
                table@.contains_key(token_of(state_ptr)),
                input_length as int,
                output_length as int,
            ) == Some(e),
        },
{
    if !table.contains(token_from_raw(state_ptr)) {
        return Err(BridgeError::InvalidHandle);
    }
    frame_length(input_length, output_length)
}

/// The first reason to turn a processing call away before the engine runs,
/// if there is one. The handle is looked at first, then the lengths, then the
/// windows.
pub open spec fn process_error(
    live: bool,
    input_capacity: int,
    input_offset: int,
    input_length: int,
    output_capacity: int,
    output_offset: int,
    output_length: int,
) -> Option<BridgeError> {
    if !live {
        Some(BridgeError::InvalidHandle)
    } else {
        stage_error(
            input_capacity,
            input_offset,
            input_length,
            output_capacity,
            output_offset,
            output_length,
        )
    }
}

/// Whatever turns a call away before its buffers are looked at turns it away
/// for the same reason once they are.
pub proof fn lemma_admission_comes_first(
    live: bool,
    input_capacity: int,
    input_offset: int,
    input_length: int,
    output_capacity: int,
    output_offset: int,
    output_length: int,
)
    requires
        admission_error(live, input_length, output_length) is Some,
    ensures
        process_error(
            live,
            input_capacity,
            input_offset,
            input_length,
            output_capacity,
            output_offset,
            output_length,
        ) == admission_error(live, input_length, output_length),
{
}

/// A call whose byte lengths differ, or are not a whole number of samples, is
/// turned away, whatever the handle, the buffers and the offsets.
pub proof fn lemma_bad_lengths_are_rejected(
    live: bool,
    input_capacity: int,
    input_offset: int,
    input_length: int,
    output_capacity: int,
    output_offset: int,
    output_length: int,
)
    requires
        input_length != output_length || input_length % 4 != 0 || output_length % 4 != 0,
    ensures
        admission_error(live, input_length, output_length) is Some,
        process_error(
            live,
            input_capacity,
            input_offset,
            input_length,
            output_capacity,
            output_offset,
            output_length,
        ) is Some,
{
}

/// First half of a processing call: checks the handle, the lengths and the
/// windows, and decodes the input window into a frame. The table is only
/// read, so a call that is turned away has touched no engine.
pub fn begin_process<E>(
    table: &HandleTable<E>,
    state_ptr: i64,
    input: &[u8],
    input_offset: i32,
    input_length: i32,
    output_capacity: usize,
    output_offset: i32,
    output_length: i32,
) -> (r: Result<FrameBuffer, BridgeError>)
    requires
        table.wf(),
    ensures
        match r {
            Ok(frame) => process_error(
                table@.contains_key(token_of(state_ptr)),
                input@.len() as int,
                input_offset as int,
                input_length as int,
                output_capacity as int,
                output_offset as int,
                output_length as int,
            ) is None && frame@ == decode_samples(
                input@.subrange(input_offset as int, input_offset + input_length),
            ),
            Err(e) => process_error(
                table@.contains_key(token_of(state_ptr)),
                input@.len() as int,
                input_offset as int,
                input_length as int,
                output_capacity as int,
                output_offset as int,
                output_length as int,
            ) == Some(e),
        },
{
    if !table.contains(token_from_raw(state_ptr)) {
        return Err(BridgeError::InvalidHandle);
    }
    FrameBuffer::stage(
        input,
        input_offset,
        input_length,
        output_capacity,
        output_offset,
        output_length,
    )
}

/// The status of a processing call: what the engine reported, if it
/// succeeded and its frame could be written; otherwise [`PROCESS_FAILED`].
pub open spec fn process_status(engine_status: Option<u32>, write_error: Option<BridgeError>) -> u32 {
    if engine_status is Some && write_error is None {
        engine_status->0
    } else {
        PROCESS_FAILED
    }
}

/// The status of a call that hands a frame straight to the engine: what the
/// engine reported, or [`PROCESS_FAILED`] if it reported a failure.
pub fn engine_status_or_failed(engine_status: Option<u32>) -> (status: u32)
    ensures
        status == process_status(engine_status, None),
{
    match engine_status {
        Some(status) => status,
        None => PROCESS_FAILED,
    }
}

/// Second half of a processing call. `engine_status` is what the engine
/// reported for the frame, `None` if it failed; `frame` is what it left in the
/// staging buffer. The frame is written to the output window after every
/// engine call, failed or not, as long as the window takes it exactly;
/// otherwise the output is left as it was. The status is settled afterwards.
pub fn finish_process(
    engine_status: Option<u32>,
    frame: &FrameBuffer,
    output: &mut [u8],
    output_offset: i32,
    output_length: i32,
) -> (status: u32)
    ensures
        status == process_status(
            engine_status,
            deliver_error(
                frame@.len() as int,
                old(output)@.len() as int,
                output_offset as int,
                output_length as int,
            ),
        ),
        final(output)@ == if deliver_error(
            frame@.len() as int,
            old(output)@.len() as int,
            output_offset as int,
            output_length as int,
        ) is None {
            splice(old(output)@, output_offset as int, encode_samples(frame@))
        } else {
            old(output)@
        },
{
    let written = frame.deliver(output, output_offset, output_length);
    match engine_status {
        Some(status) => match written {
            Ok(_) => status,
            Err(_) => PROCESS_FAILED,
        },
        None => PROCESS_FAILED,
    }
}

} // verus!
