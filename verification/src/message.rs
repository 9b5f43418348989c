//! The datagram that the UDP game-state sync sends, and its byte layout.
use crate::bytes::{
    le_u16, le_u32, lemma_u16_roundtrip, lemma_u32_roundtrip, push_u16_le, push_u32_le,
    read_u16_le, read_u32_le, u16_le, u32_le, lemma_u16_inverse, lemma_u32_inverse,
};
use core::marker::PhantomData;
use vstd::prelude::*;

verus! {

/// Bytes of payload carried by every message.
pub const PAYLOAD_LEN: usize = 1024;

/// Bytes of a whole message: two `u16`, one `u32` and the payload.
pub const MSG_LEN: usize = 1032;

/// Maximum number of unacknowledged packets that are tracked; the `u32` of
/// acknowledgement bits holds one bit for each.
pub const MAX_UNACKED_PACKETS: usize = 32;

/// Errors of the sync protocol that do not come from the socket.
#[derive(Debug, PartialEq, Eq)]
pub enum RpcError {
    /// The bytes do not have the length of the expected value; holds the length.
    FromBytes(usize),
    /// The round-trip-time histogram refused a sample.
    Histogram(&'static str),
    /// The request timed out.
    Timeout,
    /// The payload is too large; holds its length.
    PayloadTooLarge(usize),
    /// There is no peer to send to.
    NotConnected,
}

/// A datagram: its sequence number, the latest remote sequence number seen,
/// one bit for each of the 32 remote sequence numbers before that, and a payload.
#[derive(Copy, Clone, PartialEq, Debug)]
pub struct Message {
    pub seq: u16,
    pub ack: u16,
    pub ack_bits: u32,
    pub payload: [u8; 1024],
}

/// `bytes` padded with zeros to the payload length.
pub open spec fn padded_payload(bytes: Seq<u8>) -> Seq<u8> {
    bytes + Seq::new((PAYLOAD_LEN - bytes.len()) as nat, |i: int| 0u8)
}

/// The wire layout of a message: little-endian `seq`, `ack`, `ack_bits`, then
/// the payload.
pub open spec fn message_bytes(seq: u16, ack: u16, ack_bits: u32, payload: Seq<u8>) -> Seq<u8> {
    u16_le(seq) + u16_le(ack) + u32_le(ack_bits) + payload
}

impl Message {
    /// A message whose payload is `bytes` followed by zeros.
    pub fn new(seq: u16, ack: u16, ack_bits: u32, bytes: &[u8]) -> (m: Self)
        requires
            bytes@.len() <= PAYLOAD_LEN,
        ensures
            m.seq == seq,
            m.ack == ack,
            m.ack_bits == ack_bits,
            m.payload@ == padded_payload(bytes@),
    {
        let mut payload = [0u8;1024];
        let mut i: usize = 0;
        while i < bytes.len()
            invariant
                0 <= i <= bytes@.len() <= PAYLOAD_LEN,
                payload@.len() == PAYLOAD_LEN,
                forall|j: int| 0 <= j < i ==> payload@[j] == bytes@[j],
                forall|j: int| i <= j < PAYLOAD_LEN ==> payload@[j] == 0u8,
            decreases bytes@.len() - i,
        {
            payload[i] = bytes[i];
            i = i + 1;
        }
        assert(payload@ =~= padded_payload(bytes@));
        Self { seq, ack, ack_bits, payload }
    }

    /// The wire bytes of this message.
    pub fn to_bytes(&self) -> (out: Vec<u8>)
        ensures
            out@ == message_bytes(self.seq, self.ack, self.ack_bits, self.payload@),
            out@.len() == MSG_LEN,
    {
        let mut out: Vec<u8> = Vec::new();
        push_u16_le(&mut out, self.seq);
        push_u16_le(&mut out, self.ack);
        push_u32_le(&mut out, self.ack_bits);
        let ghost head = out@;
        let mut i: usize = 0;
        while i < PAYLOAD_LEN
            invariant
                0 <= i <= PAYLOAD_LEN,
                self.payload@.len() == PAYLOAD_LEN,
                out@ == head + self.payload@.subrange(0, i as int),
            decreases PAYLOAD_LEN - i,
        {
            out.push(self.payload[i]);
            i = i + 1;
            assert(out@ =~= head + self.payload@.subrange(0, i as int));
        }
        assert(self.payload@.subrange(0, PAYLOAD_LEN as int) =~= self.payload@);
        out
    }

    /// The message laid out in `bytes`, which must be exactly one message long.
    pub fn from_bytes(bytes: &[u8]) -> (res: Result<Self, RpcError>)
        ensures
            bytes@.len() != MSG_LEN ==> res == Err::<Message, RpcError>(
                RpcError::FromBytes(bytes@.len() as usize),
            ),
            bytes@.len() == MSG_LEN ==> (res matches Ok(m) && message_bytes(
                m.seq,
                m.ack,
                m.ack_bits,
                m.payload@,
            ) == bytes@),
    {
        if bytes.len() != MSG_LEN {
            return Err(RpcError::FromBytes(bytes.len()));
        }
        let seq = read_u16_le(bytes, 0);
        let ack = read_u16_le(bytes, 2);
        let ack_bits = read_u32_le(bytes, 4);
        let mut payload = [0u8;1024];
        let mut i: usize = 0;
        while i < PAYLOAD_LEN
            invariant
                0 <= i <= PAYLOAD_LEN,
                bytes@.len() == MSG_LEN,
                payload@.len() == PAYLOAD_LEN,
                forall|j: int| 0 <= j < i ==> payload@[j] == bytes@[j + 8],
            decreases PAYLOAD_LEN - i,
        {
            payload[i] = bytes[i + 8];
            i = i + 1;
        }
        let m = Self { seq, ack, ack_bits, payload };
        proof {
            lemma_le_bytes_inverse(bytes@.subrange(0, 2), bytes@.subrange(2, 4), bytes@.subrange(4, 8));
            assert(bytes@ =~= bytes@.subrange(0, 2) + bytes@.subrange(2, 4) + bytes@.subrange(4, 8)
                + payload@);
        }
        Ok(m)
    }
}

/// Encoding the decoded integers gives back the bytes.
proof fn lemma_le_bytes_inverse(a: Seq<u8>, b: Seq<u8>, c: Seq<u8>)
    requires
        a.len() == 2,
        b.len() == 2,
        c.len() == 4,
    ensures
        u16_le(le_u16(a)) == a,
        u16_le(le_u16(b)) == b,
        u32_le(le_u32(c)) == c,
{
    lemma_u16_inverse(a);
    lemma_u16_inverse(b);
    lemma_u32_inverse(c);
}

/// Reading back the bytes of a message gives the same message.
pub proof fn lemma_message_roundtrip(seq: u16, ack: u16, ack_bits: u32, payload: Seq<u8>)
    requires
        payload.len() == PAYLOAD_LEN,
    ensures
        ({
            let b = message_bytes(seq, ack, ack_bits, payload);
            &&& b.len() == MSG_LEN
            &&& le_u16(b.subrange(0, 2)) == seq
            &&& le_u16(b.subrange(2, 4)) == ack
            &&& le_u32(b.subrange(4, 8)) == ack_bits
            &&& b.subrange(8, MSG_LEN as int) == payload
        }),
{
    let b = message_bytes(seq, ack, ack_bits, payload);
    lemma_u16_roundtrip(seq);
    lemma_u16_roundtrip(ack);
    lemma_u32_roundtrip(ack_bits);
    assert(b.subrange(0, 2) =~= u16_le(seq));
    assert(b.subrange(2, 4) =~= u16_le(ack));
    assert(b.subrange(4, 8) =~= u32_le(ack_bits));
    assert(b.subrange(8, MSG_LEN as int) =~= payload);
}

/// Owned bytes that hold a value of type `T`.
pub struct Typed<T> {
    bytes: Vec<u8>,
    _pd: PhantomData<T>,
}

impl<T> Typed<T> {
    pub closed spec fn spec_bytes(&self) -> Seq<u8> {
        self.bytes@
    }

    /// Wrap bytes that are to be read as a `T`.
    pub fn new(bytes: Vec<u8>) -> (t: Self)
        ensures
            t.spec_bytes() == bytes@,
    {
        Self { bytes, _pd: PhantomData }
    }

    /// The wrapped bytes.
    pub fn bytes(&self) -> (b: &[u8])
        ensures
            b@ == self.spec_bytes(),
    {
        self.bytes.as_slice()
    }
}

impl Typed<Message> {
    /// The message that the bytes hold.
    pub fn try_ref(&self) -> (res: Result<Message, RpcError>)
        ensures
            self.spec_bytes().len() != MSG_LEN ==> res == Err::<Message, RpcError>(
                RpcError::FromBytes(self.spec_bytes().len() as usize),
            ),
            self.spec_bytes().len() == MSG_LEN ==> (res matches Ok(m) && message_bytes(
                m.seq,
                m.ack,
                m.ack_bits,
                m.payload@,
            ) == self.spec_bytes()),
    {
        Message::from_bytes(self.bytes.as_slice())
    }
}

/// Borrowed bytes that hold a value of type `T`.
pub struct TypedRef<'a, T> {
    bytes: &'a [u8],
    _pd: PhantomData<T>,
}

impl<'a, T> TypedRef<'a, T> {
    pub closed spec fn spec_bytes(&self) -> Seq<u8> {
        self.bytes@
    }

    /// Borrow bytes that are to be read as a `T`.
    pub fn new(bytes: &'a [u8]) -> (t: Self)
        ensures
            t.spec_bytes() == bytes@,
    {
        Self { bytes, _pd: PhantomData }
    }

    /// An owned copy of the bytes.
    pub fn to_owned(&self) -> (res: Result<Typed<T>, RpcError>)
        ensures
            res matches Ok(t) && t.spec_bytes() == self.spec_bytes(),
    {
        Ok(Typed::new(vstd::slice::slice_to_vec(self.bytes)))
    }
}

impl<'a> TypedRef<'a, Message> {
    /// The message that the bytes hold.
    pub fn try_ref(&self) -> (res: Result<Message, RpcError>)
        ensures
            self.spec_bytes().len() != MSG_LEN ==> res == Err::<Message, RpcError>(
                RpcError::FromBytes(self.spec_bytes().len() as usize),
            ),
            self.spec_bytes().len() == MSG_LEN ==> (res matches Ok(m) && message_bytes(
                m.seq,
                m.ack,
                m.ack_bits,
                m.payload@,
            ) == self.spec_bytes()),
    {
        Message::from_bytes(self.bytes)
    }
}

} // verus!
