//! Ethernet (EUI-48) addresses.  The address is held as its six bytes;
//! the canonical string rendering is delegated to the `eui48` crate.

use vstd::prelude::*;

verus! {

/// A lowercase hexadecimal digit.
pub open spec fn hex_digit(n: int) -> char {
    if n < 10 {
        (('0' as u8) + n) as char
    } else {
        (('a' as u8) + (n - 10)) as char
    }
}

/// The two lowercase hexadecimal digits of one byte.
pub open spec fn hex_byte(b: u8) -> Seq<char> {
    seq![hex_digit(b as int / 16), hex_digit(b as int % 16)]
}

/// The canonical (lowercase, hyphen-separated) rendering of six address
/// bytes, as `eui48::MacAddress::to_canonical` produces it.
pub open spec fn canonical_of(bytes: Seq<u8>) -> Seq<char> {
    hex_byte(bytes[0]) + seq!['-'] + hex_byte(bytes[1]) + seq!['-'] + hex_byte(bytes[2])
        + seq!['-'] + hex_byte(bytes[3]) + seq!['-'] + hex_byte(bytes[4]) + seq!['-'] + hex_byte(
        bytes[5],
    )
}

#[derive(Clone, Copy, Debug, PartialEq, Eq, Structural, Hash)]
pub struct MacAddress {
    pub o0: u8,
    pub o1: u8,
    pub o2: u8,
    pub o3: u8,
    pub o4: u8,
    pub o5: u8,
}

impl View for MacAddress {
    type V = Seq<u8>;

    open spec fn view(&self) -> Seq<u8> {
        seq![self.o0, self.o1, self.o2, self.o3, self.o4, self.o5]
    }
}

impl MacAddress {
    pub fn new(bytes: [u8; 6]) -> (r: MacAddress)
        ensures
            r@ == bytes@,
    {
        let r = MacAddress {
            o0: bytes[0],
            o1: bytes[1],
            o2: bytes[2],
            o3: bytes[3],
            o4: bytes[4],
            o5: bytes[5],
        };
        proof {
            assert(r@ =~= bytes@);
        }
        r
    }

    pub fn from_bytes(bytes: &[u8]) -> (r: MacAddress)
        requires
            bytes@.len() == 6,
        ensures
            r@ == bytes@,
    {
        let r = MacAddress {
            o0: bytes[0],
            o1: bytes[1],
            o2: bytes[2],
            o3: bytes[3],
            o4: bytes[4],
            o5: bytes[5],
        };
        proof {
            assert(r@ =~= bytes@);
        }
        r
    }

    pub fn broadcast() -> (r: MacAddress)
        ensures
            forall|i: int| 0 <= i < 6 ==> r@[i] == 0xFFu8,
    {
        MacAddress { o0: 0xFF, o1: 0xFF, o2: 0xFF, o3: 0xFF, o4: 0xFF, o5: 0xFF }
    }

    pub fn nil() -> (r: MacAddress)
        ensures
            forall|i: int| 0 <= i < 6 ==> r@[i] == 0u8,
    {
        MacAddress { o0: 0, o1: 0, o2: 0, o3: 0, o4: 0, o5: 0 }
    }

    pub fn is_nil(&self) -> (r: bool)
        ensures
            r == (forall|i: int| 0 <= i < 6 ==> self@[i] == 0u8),
    {
        let r = self.o0 == 0 && self.o1 == 0 && self.o2 == 0 && self.o3 == 0 && self.o4 == 0
            && self.o5 == 0;
        proof {
            if r {
                assert(forall|i: int| 0 <= i < 6 ==> self@[i] == 0u8);
            } else {
                assert(self@[0] == self.o0 && self@[1] == self.o1 && self@[2] == self.o2 && self@[3]
                    == self.o3 && self@[4] == self.o4 && self@[5] == self.o5);
            }
        }
        r
    }

    pub fn is_broadcast(&self) -> (r: bool)
        ensures
            r == (forall|i: int| 0 <= i < 6 ==> self@[i] == 0xFFu8),
    {
        let r = self.o0 == 0xFF && self.o1 == 0xFF && self.o2 == 0xFF && self.o3 == 0xFF && self.o4
            == 0xFF && self.o5 == 0xFF;
        proof {
            if r {
                assert(forall|i: int| 0 <= i < 6 ==> self@[i] == 0xFFu8);
            } else {
                assert(self@[0] == self.o0 && self@[1] == self.o1 && self@[2] == self.o2 && self@[3]
                    == self.o3 && self@[4] == self.o4 && self@[5] == self.o5);
            }
        }
        r
    }

    /// Unicast iff the group bit (least significant bit of the first byte)
    /// is clear.
    pub fn is_unicast(&self) -> (r: bool)
        ensures
            r == (self@[0] % 2 == 0),
    {
        self.o0 % 2 == 0
    }

    pub fn as_bytes(&self) -> (r: [u8; 6])
        ensures
            r@ == self@,
    {
        self.to_array()
    }

    pub fn to_array(&self) -> (r: [u8; 6])
        ensures
            r@ == self@,
    {
        let r = [self.o0, self.o1, self.o2, self.o3, self.o4, self.o5];
        proof {
            assert(r@ =~= self@);
        }
        r
    }

    /// Relies on `eui48::MacAddress::to_canonical`: the lowercase,
    /// hyphen-separated hexadecimal rendering of the six bytes that
    /// `canonical_of` spells out, always seventeen characters long.
    #[verifier::external_body]
    pub fn to_canonical(&self) -> (r: String)
        ensures
            r@ == canonical_of(self@),
            r@.len() == 17,
    {
        eui48::MacAddress::new([self.o0, self.o1, self.o2, self.o3, self.o4, self.o5]).to_canonical()
    }
}

} // verus!
