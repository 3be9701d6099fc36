//! Frame staging: the fixed-capacity sample buffer, the checks a pair of byte
//! windows must pass, and the transcoding of a window into a frame and back.

use crate::codec::{
    decode_sample, decode_samples, encode_sample, encode_samples, le_word, lemma_encode_decode,
};
use crate::error::BridgeError;
use vstd::prelude::*;

verus! {

/// Number of samples the staging buffer can hold.
pub const FRAME_CAPACITY: usize = 512;

/// A mono frame of at most [`FRAME_CAPACITY`] samples, each held as its bit
/// pattern. The view is the sequence of staged samples.
pub struct FrameBuffer {
    samples: [u32; FRAME_CAPACITY],
    len: usize,
}

impl View for FrameBuffer {
    type V = Seq<u32>;

    closed spec fn view(&self) -> Seq<u32> {
        self.samples@.take(self.len as int)
    }
}

/// Whether `offset` and `length` describe a region of a buffer of `capacity` bytes.
pub open spec fn window_fits(capacity: int, offset: int, length: int) -> bool {
    0 <= offset && 0 <= length && offset + length <= capacity
}

/// The first reason to turn a pair of byte lengths away, if there is one.
///
/// The lengths are compared first, then tested for a whole number of samples,
/// then for their sign, then held against the staging capacity. A negative
/// length describes no window.
pub open spec fn length_error(input_length: int, output_length: int) -> Option<BridgeError> {
    if input_length != output_length {
        Some(BridgeError::LengthMismatch)
    } else if input_length % 4 != 0 {
        Some(BridgeError::UnalignedLength)
    } else if input_length < 0 {
        Some(BridgeError::InvalidWindow)
    } else if input_length / 4 > FRAME_CAPACITY {
        Some(BridgeError::FrameTooLarge)
    } else {
        None
    }
}

/// The first reason not to stage a frame, if there is one: a fault in the
/// lengths, or a window that leaves its buffer.
pub open spec fn stage_error(
    input_capacity: int,
    input_offset: int,
    input_length: int,
    output_capacity: int,
    output_offset: int,
    output_length: int,
) -> Option<BridgeError> {
    if length_error(input_length, output_length) is Some {
        length_error(input_length, output_length)
    } else if !window_fits(input_capacity, input_offset, input_length) || !window_fits(
        output_capacity,
        output_offset,
        output_length,
    ) {
        Some(BridgeError::InvalidWindow)
    } else {
        None
    }
}

/// The first reason not to write a frame of `frame_len` samples into a
/// window, if there is one.
pub open spec fn deliver_error(frame_len: int, capacity: int, offset: int, length: int) -> Option<
    BridgeError,
> {
    if length != 4 * frame_len {
        Some(BridgeError::LengthMismatch)
    } else if !window_fits(capacity, offset, length) {
        Some(BridgeError::InvalidWindow)
    } else {
        None
    }
}

/// `buffer` with the bytes from `offset` on replaced by `bytes`.
pub open spec fn splice(buffer: Seq<u8>, offset: int, bytes: Seq<u8>) -> Seq<u8> {
    Seq::new(
        buffer.len(),
        |k: int|
            if offset <= k < offset + bytes.len() {
                bytes[k - offset]
            } else {
                buffer[k]
            },
    )
}

/// Transcoding loses nothing: the frame decoded from a window of whole
/// samples, written into a window of the same length, puts there the very
/// bytes it was decoded from.
pub proof fn lemma_transcoding_is_lossless(
    input: Seq<u8>,
    input_offset: int,
    output: Seq<u8>,
    output_offset: int,
    length: int,
)
    requires
        length % 4 == 0,
        window_fits(input.len() as int, input_offset, length),
        window_fits(output.len() as int, output_offset, length),
    ensures
        splice(
            output,
            output_offset,
            encode_samples(decode_samples(input.subrange(input_offset, input_offset + length))),
        ).subrange(output_offset, output_offset + length) == input.subrange(
            input_offset,
            input_offset + length,
        ),
{
    let window = input.subrange(input_offset, input_offset + length);
    lemma_encode_decode(window);
    lemma_splice_window(output, output_offset, window);
}

/// What was spliced into a buffer can be read back from the same place.
pub proof fn lemma_splice_window(buffer: Seq<u8>, offset: int, bytes: Seq<u8>)
    requires
        window_fits(buffer.len() as int, offset, bytes.len() as int),
    ensures
        splice(buffer, offset, bytes).len() == buffer.len(),
        splice(buffer, offset, bytes).subrange(offset, offset + bytes.len()) == bytes,
{
    assert(splice(buffer, offset, bytes).subrange(offset, offset + bytes.len()) =~= bytes);
}

/// Validates the byte lengths of an input and an output window and gives the
/// number of samples in the frame they carry. The lengths must be equal, a
/// whole number of samples, not negative, and within the staging capacity;
/// the first of these that fails names the error.
pub fn frame_length(input_length: i32, output_length: i32) -> (r: Result<usize, BridgeError>)
    ensures
        match r {
            Ok(n) => length_error(input_length as int, output_length as int) is None && n
                == input_length / 4,
            Err(e) => length_error(input_length as int, output_length as int) == Some(e),
        },
{
    if input_length != output_length {
        return Err(BridgeError::LengthMismatch);
    }
    let magnitude: i64 = if input_length < 0 {
        -(input_length as i64)
    } else {
        input_length as i64
    };
    if magnitude % 4 != 0 {
        return Err(BridgeError::UnalignedLength);
    }
    if input_length < 0 {
        return Err(BridgeError::InvalidWindow);
    }
    let n: usize = (input_length / 4) as usize;
    if n > FRAME_CAPACITY {
        return Err(BridgeError::FrameTooLarge);
    }
    Ok(n)
}

impl FrameBuffer {
    #[verifier::type_invariant]
    spec fn within_capacity(&self) -> bool {
        self.len <= FRAME_CAPACITY
    }

    /// An empty frame.
    pub fn new() -> (frame: Self)
        ensures
            frame@ == Seq::<u32>::empty(),
    {
        FrameBuffer { samples: [0u32; FRAME_CAPACITY], len: 0 }
    }

    /// Stages a copy of `samples`, or refuses a frame beyond the capacity.
    pub fn from_samples(samples: &[u32]) -> (r: Result<Self, BridgeError>)
        ensures
            match r {
                Ok(frame) => samples@.len() <= FRAME_CAPACITY && frame@ == samples@,
                Err(e) => samples@.len() > FRAME_CAPACITY && e == BridgeError::FrameTooLarge,
            },
    {
        let n: usize = samples.len();
        if n > FRAME_CAPACITY {
            return Err(BridgeError::FrameTooLarge);
        }
        let mut staged: [u32; FRAME_CAPACITY] = [0u32; FRAME_CAPACITY];
        let mut i: usize = 0;
        while i < n
            invariant
                i <= n,
                n == samples@.len(),
                n <= FRAME_CAPACITY,
                forall|k: int| 0 <= k < i ==> staged@[k] == samples@[k],
            decreases n - i,
        {
            staged[i] = samples[i];
            i += 1;
        }
        let frame = FrameBuffer { samples: staged, len: n };
        assert(frame@ =~= samples@);
        Ok(frame)
    }

    /// Validates an input and an output window and decodes the input window
    /// into a frame. Nothing is staged unless both windows pass every check.
    pub fn stage(
        input: &[u8],
        input_offset: i32,
        input_length: i32,
        output_capacity: usize,
        output_offset: i32,
        output_length: i32,
    ) -> (r: Result<Self, BridgeError>)
        ensures
            match r {
                Ok(frame) => stage_error(
                    input@.len() as int,
                    input_offset as int,
                    input_length as int,
                    output_capacity as int,
                    output_offset as int,
                    output_length as int,
                ) is None && frame@ == decode_samples(
                    input@.subrange(input_offset as int, input_offset + input_length),
                ),
                Err(e) => stage_error(
                    input@.len() as int,
                    input_offset as int,
                    input_length as int,
                    output_capacity as int,
                    output_offset as int,
                    output_length as int,
                ) == Some(e),
            },
    {
        let n: usize = match frame_length(input_length, output_length) {
            Ok(n) => n,
            Err(e) => {
                return Err(e);
            },
        };
        if input_offset < 0 || output_offset < 0 {
            return Err(BridgeError::InvalidWindow);
        }
        let bytes: usize = 4 * n;
        let start: usize = input_offset as usize;
        let out_start: usize = output_offset as usize;
        if input.len() < bytes || input.len() - bytes < start {
            return Err(BridgeError::InvalidWindow);
        }
        if output_capacity < bytes || output_capacity - bytes < out_start {
            return Err(BridgeError::InvalidWindow);
        }
        let mut staged: [u32; FRAME_CAPACITY] = [0u32; FRAME_CAPACITY];
        let mut i: usize = 0;
        while i < n
            invariant
                i <= n,
                n <= FRAME_CAPACITY,
                start + 4 * n <= input@.len() <= usize::MAX,
                forall|k: int|
                    0 <= k < i ==> staged@[k] == le_word(
                        input@[start + 4 * k],
                        input@[start + 4 * k + 1],
                        input@[start + 4 * k + 2],
                        input@[start + 4 * k + 3],
                    ),
            decreases n - i,
        {
            let at: usize = start + 4 * i;
            staged[i] = decode_sample([input[at], input[at + 1], input[at + 2], input[at + 3]]);
            i += 1;
        }
        let frame = FrameBuffer { samples: staged, len: n };
        assert(frame@ =~= decode_samples(
            input@.subrange(input_offset as int, input_offset + input_length),
        ));
        Ok(frame)
    }

    /// Number of staged samples.
    pub fn len(&self) -> (n: usize)
        ensures
            n == self@.len(),
            n <= FRAME_CAPACITY,
    {
        proof {
            use_type_invariant(self);
        }
        self.len
    }

    /// The bit pattern of sample `i`.
    pub fn sample(&self, i: usize) -> (bits: u32)
        requires
            i < self@.len(),
        ensures
            bits == self@[i as int],
    {
        proof {
            use_type_invariant(self);
        }
        self.samples[i]
    }

    /// Writes the frame in wire form into the window of `output` that starts
    /// at `output_offset` and is `output_length` bytes long. The window must
    /// be exactly as long as the frame's wire form and lie inside `output`;
    /// otherwise nothing is written.
    pub fn deliver(&self, output: &mut [u8], output_offset: i32, output_length: i32) -> (r: Result<
        (),
        BridgeError,
    >)
        ensures
            match r {
                Ok(_) => deliver_error(
                    self@.len() as int,
                    old(output)@.len() as int,
                    output_offset as int,
                    output_length as int,
                ) is None && final(output)@ == splice(
                    old(output)@,
                    output_offset as int,
                    encode_samples(self@),
                ),
                Err(e) => deliver_error(
                    self@.len() as int,
                    old(output)@.len() as int,
                    output_offset as int,
                    output_length as int,
                ) == Some(e) && final(output)@ == old(output)@,
            },
    {
        proof {
            use_type_invariant(self);
        }
        let n: usize = self.len;
        if output_length < 0 || output_length as usize != 4 * n {
            return Err(BridgeError::LengthMismatch);
        }
        if output_offset < 0 {
            return Err(BridgeError::InvalidWindow);
        }
        let start: usize = output_offset as usize;
        if output.len() < 4 * n || output.len() - 4 * n < start {
            return Err(BridgeError::InvalidWindow);
        }
        let mut i: usize = 0;
        while i < n
            invariant
                i <= n,
                n == self.len,
                n <= FRAME_CAPACITY,
                output@.len() == old(output)@.len(),
                start + 4 * n <= output@.len() <= usize::MAX,
                output@ == splice(old(output)@, start as int, encode_samples(self@.take(i as int))),
            decreases n - i,
        {
            let bytes = encode_sample(self.samples[i]);
            let at: usize = start + 4 * i;
            output[at] = bytes[0];
            output[at + 1] = bytes[1];
            output[at + 2] = bytes[2];
            output[at + 3] = bytes[3];
            i += 1;
            assert(output@ =~= splice(
                old(output)@,
                start as int,
                encode_samples(self@.take(i as int)),
            ));
        }
        assert(self@.take(n as int) =~= self@);
        Ok(())
    }
}

} // verus!
