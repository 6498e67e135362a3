use borsh::BorshDeserialize;
use vstd::prelude::*;

use crate::error::ProcessError;
use crate::fibonacci::{fib_u32, fibonacci};

verus! {

/// Number of bytes of a serialized record.
pub const RECORD_LEN: usize = 4;

/// The state stored in an account: one unsigned 32-bit value.
#[derive(Clone, Copy, Debug, PartialEq, Eq, Structural)]
pub struct Fibonacci {
    pub val: u32,
}

/// The little-endian value of the first four bytes of `b`.
pub open spec fn le_value(b: Seq<u8>) -> u32
    recommends
        b.len() >= 4,
{
    (b[0] as u32) | (b[1] as u32) << 8u32 | (b[2] as u32) << 16u32 | (b[3] as u32) << 24u32
}

/// The four little-endian bytes of `v`.
pub open spec fn le_bytes(v: u32) -> Seq<u8> {
    seq![
        (v & 0xff) as u8,
        (v >> 8u32 & 0xff) as u8,
        (v >> 16u32 & 0xff) as u8,
        (v >> 24u32 & 0xff) as u8,
    ]
}

/// The serialized form of a record.
pub open spec fn encoding(r: Fibonacci) -> Seq<u8> {
    le_bytes(r.val)
}

/// The record held at the start of a buffer, if the buffer is long enough;
/// bytes past the fourth are ignored.
pub open spec fn decoding(b: Seq<u8>) -> Result<Fibonacci, ProcessError> {
    if b.len() >= RECORD_LEN {
        Ok(Fibonacci { val: le_value(b) })
    } else {
        Err(ProcessError::MalformedRecord)
    }
}

/// A buffer with its first four bytes replaced by the encoding of `r`.
pub open spec fn overwritten(b: Seq<u8>, r: Fibonacci) -> Seq<u8> {
    encoding(r) + b.skip(RECORD_LEN as int)
}

/// Relies on `BorshDeserialize::deserialize` for `u32` in borsh: it reads four bytes
/// with `read_exact` and turns them into a value with `u32::from_le_bytes`;
/// reading from a slice of fewer than four bytes fails.
#[verifier::external_body]
fn borsh_read_u32(bytes: &[u8]) -> (r: Option<u32>)
    ensures
        bytes@.len() >= 4 ==> r == Some(le_value(bytes@)),
        bytes@.len() < 4 ==> r is None,
{
    let mut rest: &[u8] = bytes;
    u32::deserialize(&mut rest).ok()
}

/// Relies on `borsh::to_vec` for `u32`: it writes `to_le_bytes` of the value
/// into a new `Vec`, a write that does not fail.
#[verifier::external_body]
fn borsh_write_u32(v: u32) -> (r: Option<Vec<u8>>)
    ensures
        r is Some,
        r.unwrap()@ == le_bytes(v),
{
    borsh::to_vec(&v).ok()
}

impl Fibonacci {
    /// Reads the record at the start of `bytes`. Trailing bytes are allowed.
    pub fn decode(bytes: &[u8]) -> (r: Result<Fibonacci, ProcessError>)
        ensures
            r == decoding(bytes@),
    {
        match borsh_read_u32(bytes) {
            Some(val) => Ok(Fibonacci { val }),
            None => Err(ProcessError::MalformedRecord),
        }
    }

    /// The four bytes of this record.
    pub fn encode(&self) -> (r: Vec<u8>)
        ensures
            r@ == encoding(*self),
    {
        match borsh_write_u32(self.val) {
            Some(b) => b,
            // not reached: the write into a `Vec` always succeeds
            None => Vec::new(),
        }
    }

    /// Overwrites the first four bytes of `data` with this record and leaves
    /// the rest of it as it was.
    pub fn write_into(&self, data: &mut Vec<u8>)
        requires
            old(data)@.len() >= RECORD_LEN,
        ensures
            final(data)@ == overwritten(old(data)@, *self),
    {
        let bytes = self.encode();
        let mut i: usize = 0;
        while i < RECORD_LEN
            invariant
                bytes@ == encoding(*self),
                old(data)@.len() >= RECORD_LEN,
                data@.len() == old(data)@.len(),
                0 <= i <= RECORD_LEN,
                forall|j: int| 0 <= j < i ==> data@[j] == bytes@[j],
                forall|j: int| i <= j < data@.len() ==> data@[j] == old(data)@[j],
            decreases RECORD_LEN - i,
        {
            data.set(i, bytes[i]);
            i = i + 1;
        }
        assert(data@ =~= overwritten(old(data)@, *self));
    }

    /// Replaces the stored value by the Fibonacci number of index `my_data`,
    /// whatever the value was before.
    pub fn calculate(&mut self, my_data: u8)
        ensures
            final(self).val == fib_u32(my_data),
    {
        self.val = fibonacci(my_data);
    }
}

/// Decoding the encoding of a record gives the record back.
pub proof fn lemma_decode_encode(r: Fibonacci)
    ensures
        decoding(encoding(r)) == Ok::<Fibonacci, ProcessError>(r),
{
    let v = r.val;
    assert(((v & 0xff) as u8 as u32) | ((v >> 8u32 & 0xff) as u8 as u32) << 8u32 | ((v >> 16u32
        & 0xff) as u8 as u32) << 16u32 | ((v >> 24u32 & 0xff) as u8 as u32) << 24u32 == v)
        by (bit_vector);
}

/// Encoding the record decoded from a buffer of at least four bytes gives
/// back the first four bytes of that buffer.
pub proof fn lemma_encode_decode(b: Seq<u8>)
    requires
        b.len() >= RECORD_LEN,
    ensures
        decoding(b) matches Ok(r) && encoding(r) == b.take(RECORD_LEN as int),
{
    let b0 = b[0];
    let b1 = b[1];
    let b2 = b[2];
    let b3 = b[3];
    let v = le_value(b);
    assert(v & 0xff == b0 as u32 && v >> 8u32 & 0xff == b1 as u32 && v >> 16u32 & 0xff == b2 as u32
        && v >> 24u32 & 0xff == b3 as u32) by (bit_vector)
        requires
            v == (b0 as u32) | (b1 as u32) << 8u32 | (b2 as u32) << 16u32 | (b3 as u32) << 24u32,
    ;
    assert(le_bytes(v) =~= b.take(RECORD_LEN as int));
}

} // verus!
