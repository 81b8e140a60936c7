//! Byte strings and account addresses.

use vstd::prelude::*;

verus! {

/// A byte string: a username, a payment link id, a note or a deposit id.
///
/// The ledger measures and compares strings by their bytes, so nothing is
/// assumed about their encoding.
#[derive(Debug)]
pub struct Text {
    bytes: Vec<u8>,
}

impl View for Text {
    type V = Seq<u8>;

    closed spec fn view(&self) -> Seq<u8> {
        self.bytes@
    }
}

impl Text {
    /// The string made of `bytes`.
    pub fn new(bytes: Vec<u8>) -> (text: Text)
        ensures
            text@ == bytes@,
    {
        Text { bytes }
    }

    /// The UTF-8 bytes of `s`.
    pub fn from_str(s: &str) -> (text: Text)
        ensures
            text@ == vstd::utf8::encode_utf8(s@),
    {
        let source = s.as_bytes();
        let mut bytes: Vec<u8> = Vec::new();
        let mut i: usize = 0;
        while i < source.len()
            invariant
                i <= source@.len(),
                bytes@ == source@.take(i as int),
            decreases source@.len() - i,
        {
            bytes.push(source[i]);
            i += 1;
        }
        assert(source@.take(i as int) == source@);
        Text { bytes }
    }

    /// The number of bytes.
    pub fn len(&self) -> (n: usize)
        ensures
            n == self@.len(),
    {
        self.bytes.len()
    }

    /// The bytes themselves.
    pub fn as_bytes(&self) -> (bytes: &Vec<u8>)
        ensures
            bytes@ == self@,
    {
        &self.bytes
    }
}

impl Clone for Text {
    fn clone(&self) -> (copy: Self)
        ensures
            copy@ == self@,
    {
        let bytes = self.bytes.clone();
        assert(bytes@ == self.bytes@);
        Text { bytes }
    }
}

impl vstd::std_specs::cmp::PartialEqSpecImpl for Text {
    open spec fn obeys_eq_spec() -> bool {
        true
    }

    open spec fn eq_spec(&self, other: &Text) -> bool {
        self@ == other@
    }
}

impl PartialEq for Text {
    fn eq(&self, other: &Text) -> (equal: bool) {
        if self.bytes.len() != other.bytes.len() {
            return false;
        }
        let mut i: usize = 0;
        while i < self.bytes.len()
            invariant
                self.bytes@.len() == other.bytes@.len(),
                i <= self.bytes@.len(),
                forall|j: int| 0 <= j < i ==> self.bytes@[j] == other.bytes@[j],
            decreases self.bytes@.len() - i,
        {
            if self.bytes[i] != other.bytes[i] {
                return false;
            }
            i += 1;
        }
        assert(self@ == other@);
        true
    }
}

impl Eq for Text {

}

/// The address of an account or of a contract, in its text form.
///
/// Two addresses are the same exactly when their text forms are.
#[derive(Debug)]
pub struct Address {
    strkey: Text,
}

impl View for Address {
    type V = Seq<u8>;

    closed spec fn view(&self) -> Seq<u8> {
        self.strkey@
    }
}

impl Address {
    /// The address whose text form is `strkey`.
    pub fn new(strkey: Text) -> (address: Address)
        ensures
            address@ == strkey@,
    {
        Address { strkey }
    }

    /// The text form.
    pub fn strkey(&self) -> (strkey: &Text)
        ensures
            strkey@ == self@,
    {
        &self.strkey
    }
}

impl Clone for Address {
    fn clone(&self) -> (copy: Self)
        ensures
            copy@ == self@,
    {
        Address { strkey: self.strkey.clone() }
    }
}

impl vstd::std_specs::cmp::PartialEqSpecImpl for Address {
    open spec fn obeys_eq_spec() -> bool {
        true
    }

    open spec fn eq_spec(&self, other: &Address) -> bool {
        self@ == other@
    }
}

impl PartialEq for Address {
    fn eq(&self, other: &Address) -> (equal: bool) {
        self.strkey == other.strkey
    }
}

impl Eq for Address {

}

} // verus!
