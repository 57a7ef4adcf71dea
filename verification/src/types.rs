//! Plain value types shared by the whole crate.

use vstd::prelude::*;

verus! {

/// A 256-bit digest (a block hash, a transaction hash, a root hash, a log
/// topic), kept as its 32 bytes.
#[derive(Debug, PartialEq, Eq)]
pub struct B256 {
    pub bytes: Vec<u8>,
}

impl View for B256 {
    type V = Seq<u8>;

    open spec fn view(&self) -> Seq<u8> {
        self.bytes@
    }
}

impl B256 {
    /// A digest is exactly 32 bytes long.
    pub open spec fn wf(&self) -> bool {
        self.bytes@.len() == 32
    }
}

impl Clone for B256 {
    fn clone(&self) -> (r: Self)
        ensures
            r@ == self@,
    {
        let mut bytes: Vec<u8> = Vec::new();
        let mut i: usize = 0;
        while i < self.bytes.len()
            invariant
                i <= self.bytes@.len(),
                bytes@ == self.bytes@.subrange(0, i as int),
            decreases self.bytes@.len() - i,
        {
            bytes.push(self.bytes[i]);
            proof {
                assert(bytes@ =~= self.bytes@.subrange(0, i + 1));
            }
            i = i + 1;
        }
        proof {
            assert(bytes@ =~= self.bytes@);
        }
        B256 { bytes }
    }
}

/// A 160-bit account address, kept as its 20 bytes.
#[derive(Clone, Debug, PartialEq, Eq)]
pub struct Address {
    pub bytes: Vec<u8>,
}

impl View for Address {
    type V = Seq<u8>;

    open spec fn view(&self) -> Seq<u8> {
        self.bytes@
    }
}

/// A signed transaction, carried opaquely: block assembly reads nothing of a
/// transaction but its canonical (RLP) encoding, which the execution layer
/// hands over together with the transaction.
#[derive(Clone, Debug, PartialEq, Eq)]
pub struct SignedTransaction {
    pub rlp_encoding: Vec<u8>,
}

impl View for SignedTransaction {
    type V = Seq<u8>;

    /// A transaction's abstract value is its canonical encoding.
    open spec fn view(&self) -> Seq<u8> {
        self.rlp_encoding@
    }
}

/// A validator withdrawal, carried opaquely by its canonical (RLP) encoding,
/// exactly as a transaction is.
#[derive(Clone, Debug, PartialEq, Eq)]
pub struct Withdrawal {
    pub rlp_encoding: Vec<u8>,
}

impl View for Withdrawal {
    type V = Seq<u8>;

    open spec fn view(&self) -> Seq<u8> {
        self.rlp_encoding@
    }
}

} // verus!
