use vstd::prelude::*;

use crate::error::{AnchorError, AnchorResult};
use crate::handle::clone_bytes;

verus! {

/// Typed account data stored behind a fixed discriminant tag: the
/// collaborator interface this framework consumes for variable-length
/// payloads. A type says what its tag is, how a value serializes, and
/// which byte strings deserialize; the codec is exact, so writing a
/// decoded value back restores the bytes it was decoded from.
pub trait AccountData: Sized {
    /// The type's fixed discriminant tag.
    spec fn discriminant_spec() -> Seq<u8>;

    /// The canonical serialized form of a value (without the tag).
    spec fn encoding(&self) -> Seq<u8>;

    /// Whether a byte string is a well-formed serialization of some value.
    spec fn decodable(bytes: Seq<u8>) -> bool;

    fn discriminant() -> (r: Vec<u8>)
        ensures
            r@ == Self::discriminant_spec(),
    ;

    /// Deserialize a value from exactly these bytes. Exactness means a
    /// successfully decoded value's encoding is the input itself.
    fn try_from_slice(bytes: &[u8]) -> (r: AnchorResult<Self>)
        ensures
            match r {
                Ok(v) => Self::decodable(bytes@) && v.encoding() == bytes@,
                Err(e) => !Self::decodable(bytes@) && e == AnchorError::InvalidAccountData,
            },
    ;

    fn serialize(&self) -> (r: Vec<u8>)
        ensures
            r@ == self.encoding(),
    ;

    /// Every value's encoding is itself decodable, so what cleanup writes,
    /// decode accepts again.
    proof fn encoding_decodable(&self)
        ensures
            Self::decodable(self.encoding()),
    ;
}

/// A payload that keeps the raw remainder bytes unchanged. Its tag is the
/// four bytes 1, 2, 3, 4; every remainder is decodable.
pub struct RawData {
    pub bytes: Vec<u8>,
}

impl AccountData for RawData {
    open spec fn discriminant_spec() -> Seq<u8> {
        seq![1u8, 2u8, 3u8, 4u8]
    }

    open spec fn encoding(&self) -> Seq<u8> {
        self.bytes@
    }

    open spec fn decodable(bytes: Seq<u8>) -> bool {
        true
    }

    fn discriminant() -> (r: Vec<u8>) {
        let mut v: Vec<u8> = Vec::new();
        v.push(1u8);
        v.push(2u8);
        v.push(3u8);
        v.push(4u8);
        proof {
            assert(v@ =~= Self::discriminant_spec());
        }
        v
    }

    fn try_from_slice(bytes: &[u8]) -> (r: AnchorResult<Self>) {
        let mut out: Vec<u8> = Vec::new();
        let mut i: usize = 0;
        while i < bytes.len()
            invariant
                i <= bytes@.len(),
                out@ == bytes@.subrange(0, i as int),
            decreases bytes@.len() - i,
        {
            out.push(bytes[i]);
            i = i + 1;
            proof {
                assert(out@ =~= bytes@.subrange(0, i as int));
            }
        }
        proof {
            assert(out@ =~= bytes@);
        }
        Ok(RawData { bytes: out })
    }

    fn serialize(&self) -> (r: Vec<u8>) {
        clone_bytes(&self.bytes)
    }

    proof fn encoding_decodable(&self) {
    }
}

/// The eight little-endian bytes of a 64-bit value.
pub open spec fn le_bytes(v: u64) -> Seq<u8> {
    seq![
        (v & 0xff) as u8,
        ((v >> 8) & 0xff) as u8,
        ((v >> 16) & 0xff) as u8,
        ((v >> 24) & 0xff) as u8,
        ((v >> 32) & 0xff) as u8,
        ((v >> 40) & 0xff) as u8,
        ((v >> 48) & 0xff) as u8,
        ((v >> 56) & 0xff) as u8,
    ]
}

/// A payload holding one 64-bit counter, stored as exactly eight
/// little-endian bytes. Its tag is the four bytes 2, 2, 2, 2.
#[derive(Clone, Copy, Debug, PartialEq, Eq, Structural)]
pub struct Counter {
    pub value: u64,
}

impl AccountData for Counter {
    open spec fn discriminant_spec() -> Seq<u8> {
        seq![2u8, 2u8, 2u8, 2u8]
    }

    open spec fn encoding(&self) -> Seq<u8> {
        le_bytes(self.value)
    }

    open spec fn decodable(bytes: Seq<u8>) -> bool {
        bytes.len() == 8
    }

    fn discriminant() -> (r: Vec<u8>) {
        let mut v: Vec<u8> = Vec::new();
        v.push(2u8);
        v.push(2u8);
        v.push(2u8);
        v.push(2u8);
        proof {
            assert(v@ =~= Self::discriminant_spec());
        }
        v
    }

    fn try_from_slice(bytes: &[u8]) -> (r: AnchorResult<Self>) {
        if bytes.len() != 8 {
            return Err(AnchorError::InvalidAccountData);
        }
        let b0 = bytes[0];
        let b1 = bytes[1];
        let b2 = bytes[2];
        let b3 = bytes[3];
        let b4 = bytes[4];
        let b5 = bytes[5];
        let b6 = bytes[6];
        let b7 = bytes[7];
        let value: u64 = (b0 as u64) | ((b1 as u64) << 8) | ((b2 as u64) << 16) | ((b3 as u64)
            << 24) | ((b4 as u64) << 32) | ((b5 as u64) << 40) | ((b6 as u64) << 48) | ((b7 as u64)
            << 56);
        proof {
            assert((value & 0xff) == b0 as u64 && ((value >> 8) & 0xff) == b1 as u64 && ((value
                >> 16) & 0xff) == b2 as u64 && ((value >> 24) & 0xff) == b3 as u64 && ((value >> 32)
                & 0xff) == b4 as u64 && ((value >> 40) & 0xff) == b5 as u64 && ((value >> 48)
                & 0xff) == b6 as u64 && ((value >> 56) & 0xff) == b7 as u64) by (bit_vector)
                requires
                    value == (b0 as u64) | ((b1 as u64) << 8) | ((b2 as u64) << 16) | ((b3 as u64)
                        << 24) | ((b4 as u64) << 32) | ((b5 as u64) << 40) | ((b6 as u64) << 48) | (
                    (b7 as u64) << 56),
            ;
            assert(le_bytes(value) =~= bytes@);
        }
        Ok(Counter { value })
    }

    fn serialize(&self) -> (r: Vec<u8>) {
        let v = self.value;
        let mut out: Vec<u8> = Vec::new();
        out.push((v & 0xff) as u8);
        out.push(((v >> 8) & 0xff) as u8);
        out.push(((v >> 16) & 0xff) as u8);
        out.push(((v >> 24) & 0xff) as u8);
        out.push(((v >> 32) & 0xff) as u8);
        out.push(((v >> 40) & 0xff) as u8);
        out.push(((v >> 48) & 0xff) as u8);
        out.push(((v >> 56) & 0xff) as u8);
        proof {
            assert(out@ =~= le_bytes(v));
        }
        out
    }

    proof fn encoding_decodable(&self) {
    }
}

/// Typed account data with a fixed byte layout, read through a checked
/// reinterpretation of the buffer window after the tag: the collaborator
/// interface this framework consumes for fixed-layout payloads. A byte
/// string deserializes exactly when it has the layout's size and a valid
/// bit pattern.
pub trait FixedData: AccountData {
    /// The byte size of the layout.
    spec fn size_spec() -> int;

    /// Whether bytes of the right size form a valid bit pattern.
    spec fn valid_pattern(bytes: Seq<u8>) -> bool;

    /// Decodability is exactly "right size and valid pattern".
    proof fn fixed_decodable(bytes: Seq<u8>)
        ensures
            Self::decodable(bytes) == (bytes.len() == Self::size_spec() && Self::valid_pattern(
                bytes,
            )),
    ;

    /// Every value occupies exactly the layout's size.
    proof fn fixed_size(&self)
        ensures
            self.encoding().len() == Self::size_spec(),
    ;

    fn size() -> (r: usize)
        ensures
            r as int == Self::size_spec(),
    ;
}

/// A two-byte fixed-layout payload: a level byte and an enabled flag whose
/// only valid bit patterns are 0 and 1. Its tag is the four bytes
/// 7, 7, 7, 7.
#[derive(Clone, Copy, Debug, PartialEq, Eq, Structural)]
pub struct Status {
    pub level: u8,
    pub enabled: bool,
}

impl AccountData for Status {
    open spec fn discriminant_spec() -> Seq<u8> {
        seq![7u8, 7u8, 7u8, 7u8]
    }

    open spec fn encoding(&self) -> Seq<u8> {
        seq![self.level, if self.enabled { 1u8 } else { 0u8 }]
    }

    open spec fn decodable(bytes: Seq<u8>) -> bool {
        bytes.len() == 2 && bytes[1] <= 1
    }

    fn discriminant() -> (r: Vec<u8>) {
        let mut v: Vec<u8> = Vec::new();
        v.push(7u8);
        v.push(7u8);
        v.push(7u8);
        v.push(7u8);
        proof {
            assert(v@ =~= Self::discriminant_spec());
        }
        v
    }

    fn try_from_slice(bytes: &[u8]) -> (r: AnchorResult<Self>) {
        if bytes.len() != 2 {
            return Err(AnchorError::InvalidAccountData);
        }
        let level = bytes[0];
        let flag = bytes[1];
        if flag > 1 {
            return Err(AnchorError::InvalidAccountData);
        }
        let v = Status { level, enabled: flag == 1 };
        proof {
            assert(v.encoding() =~= bytes@);
        }
        Ok(v)
    }

    fn serialize(&self) -> (r: Vec<u8>) {
        let mut v: Vec<u8> = Vec::new();
        v.push(self.level);
        v.push(if self.enabled { 1u8 } else { 0u8 });
        proof {
            assert(v@ =~= self.encoding());
        }
        v
    }

    proof fn encoding_decodable(&self) {
    }
}

impl FixedData for Status {
    open spec fn size_spec() -> int {
        2
    }

    open spec fn valid_pattern(bytes: Seq<u8>) -> bool {
        bytes.len() == 2 && bytes[1] <= 1
    }

    proof fn fixed_decodable(bytes: Seq<u8>) {
    }

    proof fn fixed_size(&self) {
    }

    fn size() -> (r: usize) {
        2
    }
}

} // verus!
