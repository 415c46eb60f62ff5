//! Keys of the three sizes that the cipher accepts.

use vstd::prelude::*;

verus! {

/// Why a key was turned away.
#[derive(Debug, Clone, Copy, PartialEq, Eq, Structural)]
pub enum AesError {
    /// The key is not 16, 24 or 32 bytes long.
    InvalidKeySize,
}

/// Whether `n` bytes make a key of 128, 192 or 256 bits.
pub open spec fn valid_key_size(n: nat) -> bool {
    n == 16 || n == 24 || n == 32
}

/// Something that holds key bytes and lends them out. The block operations
/// take any such value and turn away those whose length is not a key's.
pub trait AESKey {
    /// The bytes of the key.
    spec fn bytes(&self) -> Seq<u8>;

    /// Lends the bytes of the key.
    fn borrow(&self) -> (r: &[u8])
        ensures
            r@ == self.bytes(),
    ;

    /// The number of bytes in the key.
    fn size(&self) -> (n: usize)
        ensures
            n == self.bytes().len(),
    {
        self.borrow().len()
    }
}

/// Bytes of any number lend themselves as a key; whether their number is a
/// key's is found out where the key is used.
impl AESKey for Vec<u8> {
    open spec fn bytes(&self) -> Seq<u8> {
        self@
    }

    fn borrow(&self) -> (r: &[u8]) {
        self.as_slice()
    }
}

/// A key of 128 bits.
pub struct AESKey128 {
    key: [u8; 16],
}

impl View for AESKey128 {
    type V = Seq<u8>;

    closed spec fn view(&self) -> Seq<u8> {
        self.key@
    }
}

impl AESKey128 {
    pub fn new(key: [u8; 16]) -> (r: AESKey128)
        ensures
            r@ == key@,
    {
        AESKey128 { key: key }
    }

    /// A key of this type has 16 bytes.
    pub proof fn lemma_size(&self)
        ensures
            self@.len() == 16,
    {
    }
}

impl AESKey for AESKey128 {
    open spec fn bytes(&self) -> Seq<u8> {
        self@
    }

    fn borrow(&self) -> (r: &[u8]) {
        &self.key
    }
}

/// A key of 192 bits.
pub struct AESKey192 {
    key: [u8; 24],
}

impl View for AESKey192 {
    type V = Seq<u8>;

    closed spec fn view(&self) -> Seq<u8> {
        self.key@
    }
}

impl AESKey192 {
    pub fn new(key: [u8; 24]) -> (r: AESKey192)
        ensures
            r@ == key@,
    {
        AESKey192 { key: key }
    }

    /// A key of this type has 24 bytes.
    pub proof fn lemma_size(&self)
        ensures
            self@.len() == 24,
    {
    }
}

impl AESKey for AESKey192 {
    open spec fn bytes(&self) -> Seq<u8> {
        self@
    }

    fn borrow(&self) -> (r: &[u8]) {
        &self.key
    }
}

/// A key of 256 bits.
pub struct AESKey256 {
    key: [u8; 32],
}

impl View for AESKey256 {
    type V = Seq<u8>;

    closed spec fn view(&self) -> Seq<u8> {
        self.key@
    }
}

impl AESKey256 {
    pub fn new(key: [u8; 32]) -> (r: AESKey256)
        ensures
            r@ == key@,
    {
        AESKey256 { key: key }
    }

    /// A key of this type has 32 bytes.
    pub proof fn lemma_size(&self)
        ensures
            self@.len() == 32,
    {
    }
}

impl AESKey for AESKey256 {
    open spec fn bytes(&self) -> Seq<u8> {
        self@
    }

    fn borrow(&self) -> (r: &[u8]) {
        &self.key
    }
}

} // verus!
