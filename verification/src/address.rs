use vstd::prelude::*;

verus! {

/// An account address: the opaque byte identifier under which the ledger
/// keeps a balance or a record. Owner identities and derived addresses are
/// both 32 bytes on the wire; the type itself carries arbitrary bytes and
/// every contract speaks of the byte sequence.
pub struct Address {
    pub bytes: Vec<u8>,
}

impl View for Address {
    type V = Seq<u8>;

    open spec fn view(&self) -> Seq<u8> {
        self.bytes@
    }
}

impl Address {
    pub fn new(bytes: Vec<u8>) -> (a: Address)
        ensures
            a@ == bytes@,
    {
        Address { bytes }
    }

    /// Byte-for-byte copy of the address.
    pub fn dup(&self) -> (a: Address)
        ensures
            a@ == self@,
    {
        let mut out: Vec<u8> = Vec::new();
        let mut i: usize = 0;
        while i < self.bytes.len()
            invariant
                i <= self.bytes.len(),
                out@ == self.bytes@.take(i as int),
            decreases self.bytes.len() - i,
        {
            out.push(self.bytes[i]);
            proof {
                assert(out@ =~= self.bytes@.take(i + 1 as int));
            }
            i += 1;
        }
        proof {
            assert(out@ =~= self.bytes@);
        }
        Address { bytes: out }
    }

    /// Byte-for-byte equality of two addresses.
    pub fn addr_eq(&self, other: &Address) -> (r: bool)
        ensures
            r == (self@ == other@),
    {
        if self.bytes.len() != other.bytes.len() {
            return false;
        }
        let mut i: usize = 0;
        while i < self.bytes.len()
            invariant
                i <= self.bytes.len(),
                self.bytes.len() == other.bytes.len(),
                forall|j: int| 0 <= j < i ==> self.bytes@[j] == other.bytes@[j],
            decreases self.bytes.len() - i,
        {
            if self.bytes[i] != other.bytes[i] {
                return false;
            }
            i += 1;
        }
        proof {
            assert(self@ =~= other@);
        }
        true
    }
}

} // verus!
