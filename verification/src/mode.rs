//! Modes of operation of a block cipher.

use vstd::prelude::*;

verus! {

/// A block cipher such as this one protects more than one block only when
/// it is driven in a mode of operation. This names the modes; the block
/// operations of this crate are what any of them would call once per block.
pub enum Mode {
    /// Cipher block chaining: each block of plaintext is mixed with the
    /// previous block of ciphertext, starting from an initialization vector.
    CBC,
    /// Cipher feedback: turns the block cipher into a self-synchronizing
    /// stream cipher.
    CFB,
    /// Output feedback: turns the block cipher into a synchronous stream
    /// cipher, whose keystream blocks are mixed with the plaintext.
    OFB,
    /// Counter: the keystream is made by encrypting successive values of a
    /// counter.
    CTR,
}

} // verus!
