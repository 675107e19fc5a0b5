//! The descriptor record and its four-byte wire form.

use vstd::prelude::*;

verus! {

/// Number of bytes one descriptor occupies on the wire.
pub const RECORD_SIZE: usize = 4;

/// Where a piece of a captured frame lies: `len` bytes that begin `start`
/// bytes after the frame's first byte.
#[derive(Clone, Copy, Debug, PartialEq, Eq, Structural)]
pub struct PacketLog {
    pub start: u16,
    pub len: u16,
}

/// The order in which the producing side lays out the two bytes of a 16-bit
/// field. It is fixed for a producer; the consumer has to be told which.
#[derive(Clone, Copy, Debug, PartialEq, Eq, Structural)]
pub enum ByteOrder {
    LittleEndian,
    BigEndian,
}

/// Why a raw record could not be turned into a descriptor.
#[derive(Clone, Copy, Debug, PartialEq, Eq, Structural)]
pub enum DecodeError {
    /// The record holds fewer than `RECORD_SIZE` bytes; the payload is how
    /// many it holds.
    Truncated(usize),
}

/// The two bytes of `x` in the given order.
pub open spec fn u16_wire(x: u16, order: ByteOrder) -> Seq<u8> {
    match order {
        ByteOrder::LittleEndian => seq![(x % 256) as u8, (x / 256) as u8],
        ByteOrder::BigEndian => seq![(x / 256) as u8, (x % 256) as u8],
    }
}

/// The 16-bit value whose two bytes, in the given order, are `first` and
/// `second`.
pub open spec fn u16_of_wire(first: u8, second: u8, order: ByteOrder) -> u16 {
    match order {
        ByteOrder::LittleEndian => (first + second * 256) as u16,
        ByteOrder::BigEndian => (first * 256 + second) as u16,
    }
}

/// The wire form of a descriptor: `start` in bytes 0 and 1, `len` in bytes 2
/// and 3, with nothing before, between or after.
pub open spec fn wire_encoding(log: PacketLog, order: ByteOrder) -> Seq<u8> {
    u16_wire(log.start, order) + u16_wire(log.len, order)
}

/// What a consumer reads out of a raw record: the first four bytes, taken as
/// two 16-bit fields. A record shorter than that holds no descriptor; bytes
/// past the fourth are not looked at.
pub open spec fn wire_decoding(bytes: Seq<u8>, order: ByteOrder) -> Result<PacketLog, DecodeError> {
    if bytes.len() < RECORD_SIZE {
        Err(DecodeError::Truncated(bytes.len() as usize))
    } else {
        Ok(
            PacketLog {
                start: u16_of_wire(bytes[0], bytes[1], order),
                len: u16_of_wire(bytes[2], bytes[3], order),
            },
        )
    }
}

impl PacketLog {
    /// The first offset past the described bytes.
    pub open spec fn end(self) -> int {
        self.start + self.len
    }

    /// Whether the described bytes all lie inside a frame of `frame_len`
    /// captured bytes.
    pub open spec fn within(self, frame_len: int) -> bool {
        self.end() <= frame_len
    }

    /// Encodes the descriptor as the four bytes that travel to the consumer.
    pub fn to_bytes(&self, order: ByteOrder) -> (bytes: [u8; 4])
        ensures
            bytes@ == wire_encoding(*self, order),
    {
        let start_low: u8 = (self.start % 256) as u8;
        let start_high: u8 = (self.start / 256) as u8;
        let len_low: u8 = (self.len % 256) as u8;
        let len_high: u8 = (self.len / 256) as u8;
        let bytes: [u8; 4] = match order {
            ByteOrder::LittleEndian => [start_low, start_high, len_low, len_high],
            ByteOrder::BigEndian => [start_high, start_low, len_high, len_low],
        };
        assert(bytes@ =~= wire_encoding(*self, order));
        bytes
    }

    /// Decodes a raw record. Succeeds exactly when the record holds at least
    /// `RECORD_SIZE` bytes, and then reads the first four only.
    pub fn from_bytes(bytes: &[u8], order: ByteOrder) -> (decoded: Result<PacketLog, DecodeError>)
        ensures
            decoded == wire_decoding(bytes@, order),
    {
        if bytes.len() < RECORD_SIZE {
            return Err(DecodeError::Truncated(bytes.len()));
        }
        let start: u16 = join(bytes[0], bytes[1], order);
        let len: u16 = join(bytes[2], bytes[3], order);
        Ok(PacketLog { start, len })
    }
}

/// Puts two wire bytes together into the 16-bit value they stand for.
fn join(first: u8, second: u8, order: ByteOrder) -> (value: u16)
    ensures
        value == u16_of_wire(first, second, order),
{
    match order {
        ByteOrder::LittleEndian => first as u16 + (second as u16) * 256,
        ByteOrder::BigEndian => (first as u16) * 256 + second as u16,
    }
}

/// Splitting a 16-bit value into its wire bytes and joining them again gives
/// the value back, in either byte order.
pub proof fn lemma_u16_round_trip(x: u16, order: ByteOrder)
    ensures
        u16_wire(x, order).len() == 2,
        u16_of_wire(u16_wire(x, order)[0], u16_wire(x, order)[1], order) == x,
{
}

/// A descriptor that is encoded and then decoded in the same byte order comes
/// back unchanged, whatever its two fields hold.
pub proof fn lemma_wire_round_trip(log: PacketLog, order: ByteOrder)
    ensures
        wire_encoding(log, order).len() == RECORD_SIZE,
        wire_decoding(wire_encoding(log, order), order) == Ok::<PacketLog, DecodeError>(log),
{
    lemma_u16_round_trip(log.start, order);
    lemma_u16_round_trip(log.len, order);
}

/// Four bytes that are decoded and then encoded in the same byte order come
/// back unchanged: the wire form carries nothing but the two fields.
pub proof fn lemma_wire_encoding_of_decoding(bytes: Seq<u8>, order: ByteOrder)
    requires
        bytes.len() == RECORD_SIZE,
    ensures
        wire_decoding(bytes, order) is Ok,
        wire_encoding(wire_decoding(bytes, order)->Ok_0, order) == bytes,
{
    assert(wire_encoding(wire_decoding(bytes, order)->Ok_0, order) =~= bytes);
}

} // verus!
