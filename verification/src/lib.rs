//! The AES block cipher (Rijndael) with keys of 128, 192 and 256 bits:
//! key expansion and the encryption and decryption of single 16-byte
//! blocks, each proved to compute what `model` states.

pub mod block;
pub mod cipher;
pub mod field;
pub mod key;
pub mod laws;
pub mod mode;
pub mod model;
pub mod schedule;
pub mod tables;

pub use cipher::{decrypt, encrypt};
pub use key::{AESKey, AESKey128, AESKey192, AESKey256, AesError};
pub use mode::Mode;
