//! The immutable digest value and its hex presentation.

use vstd::prelude::*;

verus! {

/// The lowercase hex digit for a value below sixteen.
pub open spec fn hex_digit_lower(v: int) -> char {
    if v < 10 {
        ((48 + v) as u8) as char
    } else {
        ((87 + v) as u8) as char
    }
}

/// The uppercase hex digit for a value below sixteen.
pub open spec fn hex_digit_upper(v: int) -> char {
    if v < 10 {
        ((48 + v) as u8) as char
    } else {
        ((55 + v) as u8) as char
    }
}

/// The lowercase hex text of a byte sequence: two digits per byte, in
/// array order.
pub open spec fn hex_lower(bytes: Seq<u8>) -> Seq<char> {
    Seq::new(
        2 * bytes.len(),
        |i: int|
            if i % 2 == 0 {
                hex_digit_lower(bytes[i / 2] as int / 16)
            } else {
                hex_digit_lower(bytes[i / 2] as int % 16)
            },
    )
}

/// The uppercase hex text of a byte sequence.
pub open spec fn hex_upper(bytes: Seq<u8>) -> Seq<char> {
    Seq::new(
        2 * bytes.len(),
        |i: int|
            if i % 2 == 0 {
                hex_digit_upper(bytes[i / 2] as int / 16)
            } else {
                hex_digit_upper(bytes[i / 2] as int % 16)
            },
    )
}

/// The value of one hex digit, either case.
pub open spec fn hex_digit_value(c: char) -> int {
    if 48 <= c as int <= 57 {
        c as int - 48
    } else if 97 <= c as int <= 102 {
        c as int - 87
    } else {
        c as int - 55
    }
}

/// The bytes read back from hex text: one byte per digit pair.
pub open spec fn hex_decode(text: Seq<char>) -> Seq<u8> {
    Seq::new(
        text.len() / 2,
        |i: int| (16 * hex_digit_value(text[2 * i]) + hex_digit_value(text[2 * i + 1])) as u8,
    )
}

/// Decoding the lowercase hex text of any byte sequence gives the bytes
/// back.
pub proof fn lemma_hex_round_trip(bytes: Seq<u8>)
    ensures
        hex_decode(hex_lower(bytes)) =~= bytes,
{
    assert forall|i: int| 0 <= i < bytes.len() implies hex_decode(hex_lower(bytes))[i] == bytes[i] by {
        assert(hex_lower(bytes)[2 * i] == hex_digit_lower(bytes[i] as int / 16));
        assert(hex_lower(bytes)[2 * i + 1] == hex_digit_lower(bytes[i] as int % 16));
        assert(hex_digit_value(hex_digit_lower(bytes[i] as int / 16)) == bytes[i] as int / 16);
        assert(hex_digit_value(hex_digit_lower(bytes[i] as int % 16)) == bytes[i] as int % 16);
    }
}

/// The uppercase hex text is the character-wise uppercase of the
/// lowercase one.
pub proof fn lemma_hex_cases(bytes: Seq<u8>)
    ensures
        hex_upper(bytes) =~= hex_lower(bytes).map(|i: int, c: char| upper_char(c)),
{
}

/// Uppercases one ASCII letter; anything else is unchanged.
pub open spec fn upper_char(c: char) -> char {
    if 97 <= c as int <= 122 {
        ((c as int - 32) as u8) as char
    } else {
        c
    }
}

/// Relies on `String::push`: appends one character at the end.
#[verifier::external_body]
fn push_char(s: &mut String, c: char)
    ensures
        final(s)@ == old(s)@.push(c),
{
    s.push(c);
}

/// An immutable sixteen-byte digest; two digests are equal exactly when
/// their bytes are.
#[derive(Clone, Copy, Debug, Eq, Hash)]
pub struct Digest {
    bytes: [u8; 16],
}

impl View for Digest {
    type V = Seq<u8>;

    closed spec fn view(&self) -> Seq<u8> {
        self.bytes@
    }
}

impl PartialEq for Digest {
    fn eq(&self, other: &Digest) -> (r: bool) {
        let mut i: usize = 0;
        while i < 16
            invariant
                i <= 16,
                forall|k: int| 0 <= k < i ==> self.bytes@[k] == other.bytes@[k],
            decreases 16 - i,
        {
            if self.bytes[i] != other.bytes[i] {
                return false;
            }
            i = i + 1;
        }
        proof {
            assert(self.bytes@ =~= other.bytes@);
        }
        true
    }
}

impl vstd::std_specs::cmp::PartialEqSpecImpl for Digest {
    open spec fn obeys_eq_spec() -> bool {
        true
    }

    open spec fn eq_spec(&self, other: &Digest) -> bool {
        self@ == other@
    }
}

impl Digest {
    /// Wraps sixteen digest bytes.
    pub fn new(digest: [u8; 16]) -> (r: Digest)
        ensures
            r@ == digest@,
    {
        Digest { bytes: digest }
    }

    /// Borrows the digest bytes.
    pub fn as_bytes(&self) -> (r: &[u8])
        ensures
            r@ == self@,
    {
        self.bytes.as_slice()
    }

    /// Consumes the digest, returning the bytes.
    pub fn into_inner(self) -> (r: [u8; 16])
        ensures
            r@ == self@,
    {
        self.bytes
    }

    /// The thirty-two lowercase hex characters of the digest.
    pub fn to_hex_lowercase(&self) -> (r: String)
        ensures
            r@ == hex_lower(self@),
    {
        let mut s = String::new();
        let mut i: usize = 0;
        while i < 16
            invariant
                i <= 16,
                s@ =~= hex_lower(self.bytes@).take(2 * i),
            decreases 16 - i,
        {
            let b = self.bytes[i];
            push_char(&mut s, hex_char_lower(b / 16));
            push_char(&mut s, hex_char_lower(b % 16));
            proof {
                assert(s@ =~= hex_lower(self.bytes@).take(2 * (i + 1)));
            }
            i = i + 1;
        }
        proof {
            assert(hex_lower(self.bytes@).take(32) =~= hex_lower(self.bytes@));
        }
        s
    }

    /// The thirty-two uppercase hex characters of the digest.
    pub fn to_hex_uppercase(&self) -> (r: String)
        ensures
            r@ == hex_upper(self@),
    {
        let mut s = String::new();
        let mut i: usize = 0;
        while i < 16
            invariant
                i <= 16,
                s@ =~= hex_upper(self.bytes@).take(2 * i),
            decreases 16 - i,
        {
            let b = self.bytes[i];
            push_char(&mut s, hex_char_upper(b / 16));
            push_char(&mut s, hex_char_upper(b % 16));
            proof {
                assert(s@ =~= hex_upper(self.bytes@).take(2 * (i + 1)));
            }
            i = i + 1;
        }
        proof {
            assert(hex_upper(self.bytes@).take(32) =~= hex_upper(self.bytes@));
        }
        s
    }
}

/// The lowercase hex digit character for a value below sixteen.
fn hex_char_lower(v: u8) -> (c: char)
    requires
        v < 16,
    ensures
        c == hex_digit_lower(v as int),
{
    if v < 10 {
        (48 + v) as char
    } else {
        (87 + v) as char
    }
}

/// The uppercase hex digit character for a value below sixteen.
fn hex_char_upper(v: u8) -> (c: char)
    requires
        v < 16,
    ensures
        c == hex_digit_upper(v as int),
{
    if v < 10 {
        (48 + v) as char
    } else {
        (55 + v) as char
    }
}

} // verus!
