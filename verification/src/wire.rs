//! Integers on the wire, and the cursor that reads them.
//!
//! Integers travel in bincode's variable-length encoding; bincode itself writes and
//! reads them. [`varint`] and [`parse_varint`] say what that encoding is.
use vstd::prelude::*;
use vstd::slice::slice_subrange;

verus! {

/// Why a component could not be written or read.
#[derive(Clone, Copy, Debug, PartialEq, Eq, Structural)]
pub enum ReplicationError {
    /// The value could not be written.
    Encoding,
    /// The bytes ended too early or do not have the expected shape.
    Decoding,
    /// The bytes name a replication identifier for which this process has no rule.
    UnknownOrdinal(u64),
}

/// The byte of `value` at `place`, where `place` is 1 for the lowest byte, 256 for the
/// next, and so on.
pub open spec fn byte_at(value: nat, place: nat) -> u8 {
    (value / place % 256) as u8
}

/// The two bytes of a 16-bit value, the lowest first.
pub open spec fn le_bytes_2(value: nat) -> Seq<u8> {
    seq![byte_at(value, 1), byte_at(value, 0x100)]
}

/// The four bytes of a 32-bit value, the lowest first.
pub open spec fn le_bytes_4(value: nat) -> Seq<u8> {
    seq![
        byte_at(value, 1),
        byte_at(value, 0x100),
        byte_at(value, 0x1_0000),
        byte_at(value, 0x100_0000),
    ]
}

/// The eight bytes of a 64-bit value, the lowest first.
pub open spec fn le_bytes_8(value: nat) -> Seq<u8> {
    seq![
        byte_at(value, 1),
        byte_at(value, 0x100),
        byte_at(value, 0x1_0000),
        byte_at(value, 0x100_0000),
        byte_at(value, 0x1_0000_0000),
        byte_at(value, 0x100_0000_0000),
        byte_at(value, 0x1_0000_0000_0000),
        byte_at(value, 0x100_0000_0000_0000),
    ]
}

/// The value that two bytes hold, the lowest first.
pub open spec fn le_value_2(bytes: Seq<u8>) -> nat {
    (bytes[0] + 0x100 * bytes[1]) as nat
}

/// The value that four bytes hold, the lowest first.
pub open spec fn le_value_4(bytes: Seq<u8>) -> nat {
    (bytes[0] + 0x100 * bytes[1] + 0x1_0000 * bytes[2] + 0x100_0000 * bytes[3]) as nat
}

/// The value that eight bytes hold, the lowest first.
pub open spec fn le_value_8(bytes: Seq<u8>) -> nat {
    (bytes[0] + 0x100 * bytes[1] + 0x1_0000 * bytes[2] + 0x100_0000 * bytes[3] + 0x1_0000_0000
        * bytes[4] + 0x100_0000_0000 * bytes[5] + 0x1_0000_0000_0000 * bytes[6]
        + 0x100_0000_0000_0000 * bytes[7]) as nat
}

/// The bytes of an unsigned integer in the variable-length encoding: values up to
/// 250 take one byte; larger ones take a marker byte (251, 252 or 253) followed by
/// the value as a little-endian integer of two, four or eight bytes.
pub open spec fn varint(value: u64) -> Seq<u8> {
    if value <= 250 {
        seq![value as u8]
    } else if value <= 0xffff {
        seq![251u8] + le_bytes_2(value as nat)
    } else if value <= 0xffff_ffff {
        seq![252u8] + le_bytes_4(value as nat)
    } else {
        seq![253u8] + le_bytes_8(value as nat)
    }
}

/// The unsigned integer that stands at the start of `bytes` in the variable-length
/// encoding, with the number of bytes that it takes, or `None` where `bytes` ends
/// too early or begins with a marker byte above 253.
pub open spec fn parse_varint(bytes: Seq<u8>) -> Option<(u64, nat)> {
    if bytes.len() == 0 {
        None
    } else if bytes[0] <= 250 {
        Some((bytes[0] as u64, 1nat))
    } else if bytes[0] == 251 {
        if bytes.len() >= 3 {
            Some((le_value_2(bytes.subrange(1, 3)) as u64, 3nat))
        } else {
            None
        }
    } else if bytes[0] == 252 {
        if bytes.len() >= 5 {
            Some((le_value_4(bytes.subrange(1, 5)) as u64, 5nat))
        } else {
            None
        }
    } else if bytes[0] == 253 {
        if bytes.len() >= 9 {
            Some((le_value_8(bytes.subrange(1, 9)) as u64, 9nat))
        } else {
            None
        }
    } else {
        None
    }
}

/// Little-endian bytes hold the value that they were made of.
pub proof fn lemma_le_bytes(value: u64)
    ensures
        value <= 0xffff ==> le_value_2(le_bytes_2(value as nat)) == value,
        value <= 0xffff_ffff ==> le_value_4(le_bytes_4(value as nat)) == value,
        le_value_8(le_bytes_8(value as nat)) == value,
{
    let v = value as nat;
    let b0 = v % 256;
    let q1 = v / 0x100;
    let q2 = v / 0x1_0000;
    let q3 = v / 0x100_0000;
    let q4 = v / 0x1_0000_0000;
    let q5 = v / 0x100_0000_0000;
    let q6 = v / 0x1_0000_0000_0000;
    let q7 = v / 0x100_0000_0000_0000;
    assert(q2 == q1 / 0x100);
    assert(q3 == q2 / 0x100);
    assert(q4 == q3 / 0x100);
    assert(q5 == q4 / 0x100);
    assert(q6 == q5 / 0x100);
    assert(q7 == q6 / 0x100);
    assert(v == b0 + 0x100 * q1);
    assert(q1 == q1 % 256 + 0x100 * q2);
    assert(q2 == q2 % 256 + 0x100 * q3);
    assert(q3 == q3 % 256 + 0x100 * q4);
    assert(q4 == q4 % 256 + 0x100 * q5);
    assert(q5 == q5 % 256 + 0x100 * q6);
    assert(q6 == q6 % 256 + 0x100 * q7);
    assert(q7 < 0x100);
}

/// The encoding of an integer takes one, three, five or nine bytes.
pub proof fn lemma_varint_len(value: u64)
    ensures
        varint(value).len() == if value <= 250 {
            1nat
        } else if value <= 0xffff {
            3nat
        } else if value <= 0xffff_ffff {
            5nat
        } else {
            9nat
        },
{
}

/// Parsing what was written gives the value back, whatever follows it.
pub proof fn lemma_parse_varint_of_varint(value: u64, rest: Seq<u8>)
    ensures
        parse_varint(varint(value) + rest) == Some((value, varint(value).len())),
{
    lemma_le_bytes(value);
    let bytes = varint(value) + rest;
    if value <= 250 {
        assert(bytes[0] == value as u8);
    } else if value <= 0xffff {
        assert(bytes[0] == 251u8);
        assert(bytes.subrange(1, 3) =~= le_bytes_2(value as nat));
    } else if value <= 0xffff_ffff {
        assert(bytes[0] == 252u8);
        assert(bytes.subrange(1, 5) =~= le_bytes_4(value as nat));
    } else {
        assert(bytes[0] == 253u8);
        assert(bytes.subrange(1, 9) =~= le_bytes_8(value as nat));
    }
}

/// Cut short, the encoding of an integer does not parse.
pub proof fn lemma_parse_varint_truncated(value: u64, n: int)
    requires
        0 <= n < varint(value).len(),
    ensures
        parse_varint(varint(value).take(n)) is None,
{
    lemma_varint_len(value);
    let bytes = varint(value).take(n);
    if n > 0 {
        assert(bytes[0] == varint(value)[0]);
    }
}

/// What parses, parses to the same value with anything appended; and it takes at
/// least one byte and no more than there are.
pub proof fn lemma_parse_varint_prefix(bytes: Seq<u8>, rest: Seq<u8>)
    requires
        parse_varint(bytes) is Some,
    ensures
        parse_varint(bytes + rest) == parse_varint(bytes),
        1 <= parse_varint(bytes).unwrap().1 <= bytes.len(),
{
    let longer = bytes + rest;
    assert(longer[0] == bytes[0]);
    if bytes[0] == 251 {
        assert(longer.subrange(1, 3) =~= bytes.subrange(1, 3));
    } else if bytes[0] == 252 {
        assert(longer.subrange(1, 5) =~= bytes.subrange(1, 5));
    } else if bytes[0] == 253 {
        assert(longer.subrange(1, 9) =~= bytes.subrange(1, 9));
    }
}

/// `bincode::ErrorKind`, the error of bincode's calls. Nothing is known of a value of
/// it; the library answers each with an error of its own.
#[verifier::external_type_specification]
#[verifier::external_body]
pub struct ExErrorKind(bincode::ErrorKind);

/// Calls `serialize_into` of `bincode::DefaultOptions` on a `u64`, with `out` as the
/// writer. The call appends the variable-length encoding of `value` to `out`, and,
/// writing to a vector without a size limit, does not fail.
#[verifier::external_body]
pub(crate) fn bincode_write_u64(out: &mut Vec<u8>, value: u64) -> (written: Result<
    (),
    Box<bincode::ErrorKind>,
>)
    ensures
        written is Ok,
        final(out)@ == old(out)@ + varint(value),
{
    bincode::Options::serialize_into(bincode::DefaultOptions::new(), out, &value)
}

/// Calls `deserialize_from` of `bincode::DefaultOptions` for a `u64`, with a reader
/// over `input`. The call reads one integer in the variable-length encoding from
/// the start of `input`; the result holds the integer and the number of bytes read.
/// It fails where `input` ends too early or begins with a marker byte above 253.
#[verifier::external_body]
pub(crate) fn bincode_read_u64(input: &[u8]) -> (read: Result<(u64, usize), Box<bincode::ErrorKind>>)
    ensures
        match read {
            Ok((value, consumed)) => parse_varint(input@) == Some((value, consumed as nat)),
            Err(_) => parse_varint(input@) is None,
        },
{
    let mut reader = std::io::Cursor::new(input);
    let value: u64 = bincode::Options::deserialize_from(bincode::DefaultOptions::new(), &mut reader)?;
    Ok((value, reader.position() as usize))
}

/// A position in a buffer of received bytes.
pub struct Cursor {
    bytes: Vec<u8>,
    position: usize,
}

impl Cursor {
    #[verifier::type_invariant]
    spec fn in_bounds(self) -> bool {
        self.position <= self.bytes@.len()
    }

    /// All the bytes of the buffer.
    pub closed spec fn data(&self) -> Seq<u8> {
        self.bytes@
    }

    /// The number of bytes that were read.
    pub closed spec fn offset(&self) -> nat {
        self.position as nat
    }

    /// The bytes that were not read yet.
    pub open spec fn remaining(&self) -> Seq<u8> {
        self.data().skip(self.offset() as int)
    }

    /// A cursor at the start of `bytes`.
    pub fn new(bytes: Vec<u8>) -> (cursor: Cursor)
        ensures
            cursor.data() == bytes@,
            cursor.offset() == 0,
    {
        Cursor { bytes, position: 0 }
    }

    /// The number of bytes that were read.
    pub fn position(&self) -> (position: usize)
        ensures
            position == self.offset(),
            self.offset() <= self.data().len(),
    {
        proof {
            use_type_invariant(self);
        }
        self.position
    }

    /// Reads one integer in the variable-length encoding and moves behind it.
    ///
    /// Where the remaining bytes do not begin with such an integer the result is
    /// [`ReplicationError::Decoding`] and the cursor stays where it was.
    pub fn read_u64(&mut self) -> (read: Result<u64, ReplicationError>)
        ensures
            final(self).data() == old(self).data(),
            match read {
                Ok(value) => {
                    &&& parse_varint(old(self).remaining()) is Some
                    &&& parse_varint(old(self).remaining()).unwrap().0 == value
                    &&& final(self).offset() == old(self).offset() + parse_varint(
                        old(self).remaining(),
                    ).unwrap().1
                    &&& final(self).offset() <= final(self).data().len()
                },
                Err(error) => {
                    &&& error == ReplicationError::Decoding
                    &&& parse_varint(old(self).remaining()) is None
                    &&& final(self).offset() == old(self).offset()
                },
            },
    {
        proof {
            use_type_invariant(&*self);
        }
        let rest = slice_subrange(self.bytes.as_slice(), self.position, self.bytes.len());
        assert(rest@ =~= self.remaining());
        match bincode_read_u64(rest) {
            Ok((value, consumed)) => {
                proof {
                    lemma_parse_varint_prefix(rest@, Seq::empty());
                    assert(rest@ + Seq::<u8>::empty() =~= rest@);
                }
                self.position = self.position + consumed;
                Ok(value)
            },
            Err(_) => Err(ReplicationError::Decoding),
        }
    }

    /// Moves back to an earlier position.
    pub(crate) fn rewind(&mut self, position: usize)
        requires
            position <= old(self).offset(),
        ensures
            final(self).data() == old(self).data(),
            final(self).offset() == position,
    {
        proof {
            use_type_invariant(&*self);
        }
        self.position = position;
    }
}

} // verus!
