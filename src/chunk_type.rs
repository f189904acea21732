use vstd::prelude::*;
use vstd::utf8::*;
use vstd::string::*;

use crate::bytes::{lemma_ascii_valid_utf8, string_from_utf8};
use crate::error::ChunkTypeDecodingError;

verus! {

/// An ASCII letter: `A`-`Z` or `a`-`z`.
pub open spec fn is_type_byte(b: u8) -> bool {
    (65 <= b && b <= 90) || (97 <= b && b <= 122)
}

/// Four bytes, each an ASCII letter.
pub open spec fn is_type_code(t: Seq<u8>) -> bool {
    t.len() == 4 && forall|i: int| 0 <= i < 4 ==> is_type_byte(#[trigger] t[i])
}

/// The first byte of `t` that is not an ASCII letter (any value where there is none).
pub open spec fn first_bad_byte(t: Seq<u8>) -> u8
    recommends
        t.len() == 4,
{
    if !is_type_byte(t[0]) {
        t[0]
    } else if !is_type_byte(t[1]) {
        t[1]
    } else if !is_type_byte(t[2]) {
        t[2]
    } else {
        t[3]
    }
}

/// Bit 5 of `b`, the case bit of an ASCII letter, is clear (the letter is uppercase).
pub open spec fn case_bit_clear(b: u8) -> bool {
    (b >> 5u8) & 1u8 == 0
}

/// A validated four-letter chunk-type code.
#[derive(Debug, Clone, Copy)]
pub struct ChunkType {
    code: [u8; 4],
}

impl View for ChunkType {
    type V = Seq<u8>;

    closed spec fn view(&self) -> Seq<u8> {
        self.code@
    }
}

impl PartialEq for ChunkType {
    fn eq(&self, other: &ChunkType) -> (r: bool) {
        let r = self.code[0] == other.code[0] && self.code[1] == other.code[1]
            && self.code[2] == other.code[2] && self.code[3] == other.code[3];
        assert(r ==> self.code@ =~= other.code@);
        r
    }
}

impl vstd::std_specs::cmp::PartialEqSpecImpl for ChunkType {
    open spec fn obeys_eq_spec() -> bool {
        true
    }

    open spec fn eq_spec(&self, other: &ChunkType) -> bool {
        self@ == other@
    }
}

impl Eq for ChunkType {
}

impl ChunkType {
    #[verifier::type_invariant]
    pub open spec fn inv(self) -> bool {
        is_type_code(self@)
    }

    fn is_valid_byte(b: u8) -> (r: bool)
        ensures
            r == is_type_byte(b),
    {
        (65 <= b && b <= 90) || (97 <= b && b <= 122)
    }

    /// Is bit `n` (counting from 0 at the least significant end) of `bits` zero?
    fn is_zero_bit(bits: u8, n: u8) -> (r: bool)
        requires
            n < 8,
        ensures
            r == ((bits >> n) & 1u8 == 0),
    {
        let mask: u8 = 1u8 << n;
        let r = bits & mask == 0;
        assert(((bits & (1u8 << n)) == 0) == ((bits >> n) & 1u8 == 0)) by (bit_vector)
            requires
                n < 8,
        ;
        r
    }

    /// The four bytes of the code.
    pub fn bytes(&self) -> (r: [u8; 4])
        ensures
            r@ == self@,
            is_type_code(r@),
    {
        proof {
            use_type_invariant(self);
        }
        self.code
    }

    /// The code is valid when its reserved bit (the case bit of the third byte) is clear.
    pub fn is_valid(&self) -> (r: bool)
        ensures
            r == case_bit_clear(self@[2]),
    {
        self.is_reserved_bit_valid()
    }

    /// Critical: the first letter is uppercase.
    pub fn is_critical(&self) -> (r: bool)
        ensures
            r == case_bit_clear(self@[0]),
    {
        Self::is_zero_bit(self.code[0], 5)
    }

    /// Public: the second letter is uppercase.
    pub fn is_public(&self) -> (r: bool)
        ensures
            r == case_bit_clear(self@[1]),
    {
        Self::is_zero_bit(self.code[1], 5)
    }

    /// Reserved bit valid: the third letter is uppercase.
    pub fn is_reserved_bit_valid(&self) -> (r: bool)
        ensures
            r == case_bit_clear(self@[2]),
    {
        Self::is_zero_bit(self.code[2], 5)
    }

    /// Safe to copy: the fourth letter is lowercase.
    pub fn is_safe_to_copy(&self) -> (r: bool)
        ensures
            r == !case_bit_clear(self@[3]),
    {
        !Self::is_zero_bit(self.code[3], 5)
    }

    /// Builds a code from four bytes, failing on the first that is not an ASCII letter.
    pub fn try_from(bytes: [u8; 4]) -> (r: Result<ChunkType, ChunkTypeDecodingError>)
        ensures
            r is Ok <==> is_type_code(bytes@),
            r matches Ok(c) ==> c@ == bytes@,
            r matches Err(e) ==> e == ChunkTypeDecodingError::BadByte(first_bad_byte(bytes@)),
    {
        let mut i: usize = 0;
        while i < 4
            invariant
                i <= 4,
                bytes@.len() == 4,
                forall|j: int| 0 <= j < i ==> is_type_byte(#[trigger] bytes@[j]),
            decreases 4 - i,
        {
            if !Self::is_valid_byte(bytes[i]) {
                return Err(ChunkTypeDecodingError::BadByte(bytes[i]));
            }
            i = i + 1;
        }
        Ok(ChunkType { code: bytes })
    }

    /// Builds a code from the bytes of a four-byte string.
    pub fn from_str(s: &str) -> (r: Result<ChunkType, ChunkTypeDecodingError>)
        ensures
            s.spec_bytes().len() != 4 ==> r == Err::<ChunkType, ChunkTypeDecodingError>(
                ChunkTypeDecodingError::BadLength(s.spec_bytes().len() as usize),
            ),
            s.spec_bytes().len() == 4 ==> {
                &&& (r is Ok <==> is_type_code(s.spec_bytes()))
                &&& (r matches Ok(c) ==> c@ == s.spec_bytes())
                &&& (r matches Err(e) ==> e == ChunkTypeDecodingError::BadByte(
                    first_bad_byte(s.spec_bytes()),
                ))
            },
    {
        let b = s.as_bytes();
        if b.len() != 4 {
            return Err(ChunkTypeDecodingError::BadLength(b.len()));
        }
        let code: [u8; 4] = [b[0], b[1], b[2], b[3]];
        assert(code@ =~= b@);
        Self::try_from(code)
    }

    /// The code as text, its letters in their own case.
    pub fn to_string(&self) -> (r: String)
        ensures
            r@ == decode_utf8(self@),
    {
        proof {
            use_type_invariant(self);
        }
        let mut v: Vec<u8> = Vec::new();
        v.push(self.code[0]);
        v.push(self.code[1]);
        v.push(self.code[2]);
        v.push(self.code[3]);
        assert(v@ =~= self@);
        proof {
            lemma_ascii_valid_utf8(v@);
        }
        match string_from_utf8(v) {
            Some(s) => s,
            None => String::new(),
        }
    }
}

/// Validity is decided by the third byte alone: two codes that agree there
/// are both valid or both not, whatever the case of their other letters, and
/// a code is valid exactly when its third letter is uppercase.
pub proof fn lemma_validity_from_third_byte(a: Seq<u8>, b: Seq<u8>)
    requires
        is_type_code(a),
        is_type_code(b),
        a[2] == b[2],
    ensures
        case_bit_clear(a[2]) == case_bit_clear(b[2]),
        case_bit_clear(a[2]) <==> 65 <= a[2] <= 90,
{
    let c = a[2];
    assert(((c >> 5u8) & 1u8 == 0) <==> (65 <= c && c <= 90)) by (bit_vector)
        requires
            (65 <= c && c <= 90) || (97 <= c && c <= 122),
    ;
}

} // verus!
