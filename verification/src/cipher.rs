//! The two block operations: a 16-byte block encrypted or decrypted under a
//! key of 16, 24 or 32 bytes.

use vstd::prelude::*;
use vstd::slice::slice_subrange;
use crate::block::{
    add_roundkey,
    inv_mix_columns,
    inv_shift_rows,
    inv_sub_bytes,
    mix_columns,
    shift_rows,
    sub_bytes,
};
use crate::key::{valid_key_size, AESKey, AesError};
use crate::model;
use crate::schedule::expand_key;

verus! {

/// Encrypts a 16-byte block under `key`. A key whose length is not 16, 24 or
/// 32 bytes is turned away before any work on the block.
pub fn encrypt<T: AESKey>(plaintext: [u8; 16], key: &T) -> (r: Result<[u8; 16], AesError>)
    ensures
        match r {
            Ok(ciphertext) => valid_key_size(key.bytes().len()) && ciphertext@ == model::encrypt(
                plaintext@,
                key.bytes(),
            ),
            Err(e) => !valid_key_size(key.bytes().len()) && e == AesError::InvalidKeySize,
        },
{
    let rounds: usize = match key.size() {
        16 => 11,
        24 => 13,
        32 => 15,
        _ => {
            return Err(AesError::InvalidKeySize);
        },
    };
    let key_schedule = match expand_key(key) {
        Ok(schedule) => schedule,
        Err(e) => {
            return Err(e);
        },
    };
    let schedule = key_schedule.as_slice();

    // round 0: the round key alone
    let mut state = add_roundkey(plaintext, slice_subrange(schedule, 0, 16));

    // the full rounds
    let mut i: usize = 1;
    while i < rounds - 1
        invariant
            1 <= i <= rounds - 1,
            rounds <= 15,
            schedule@.len() == 16 * rounds,
            state@ == model::encrypt_rounds(plaintext@, schedule@, (i - 1) as nat),
        decreases rounds - i,
    {
        state = sub_bytes(state);
        state = shift_rows(state);
        state = mix_columns(state);
        state = add_roundkey(state, slice_subrange(schedule, i * 16, (i + 1) * 16));
        i += 1;
    }

    // the last round mixes no columns
    state = sub_bytes(state);
    state = shift_rows(state);
    state = add_roundkey(state, slice_subrange(schedule, 16 * (rounds - 1), 16 * rounds));
    Ok(state)
}

/// Decrypts a 16-byte block under `key`. A key whose length is not 16, 24 or
/// 32 bytes is turned away before any work on the block.
pub fn decrypt<T: AESKey>(ciphertext: [u8; 16], key: &T) -> (r: Result<[u8; 16], AesError>)
    ensures
        match r {
            Ok(plaintext) => valid_key_size(key.bytes().len()) && plaintext@ == model::decrypt(
                ciphertext@,
                key.bytes(),
            ),
            Err(e) => !valid_key_size(key.bytes().len()) && e == AesError::InvalidKeySize,
        },
{
    let rounds: usize = match key.size() {
        16 => 11,
        24 => 13,
        32 => 15,
        _ => {
            return Err(AesError::InvalidKeySize);
        },
    };
    let key_schedule = match expand_key(key) {
        Ok(schedule) => schedule,
        Err(e) => {
            return Err(e);
        },
    };
    let schedule = key_schedule.as_slice();

    // round 0: the last round key alone
    let mut state = add_roundkey(
        ciphertext,
        slice_subrange(schedule, 16 * (rounds - 1), 16 * rounds),
    );

    // the full rounds, with the round keys taken backwards
    let mut i: usize = 1;
    while i < rounds - 1
        invariant
            1 <= i <= rounds - 1,
            rounds <= 15,
            schedule@.len() == 16 * rounds,
            state@ == model::decrypt_rounds(
                ciphertext@,
                schedule@,
                rounds as nat,
                (i - 1) as nat,
            ),
        decreases rounds - i,
    {
        state = inv_shift_rows(state);
        state = inv_sub_bytes(state);
        state = add_roundkey(
            state,
            slice_subrange(schedule, 16 * (rounds - (i + 1)), 16 * (rounds - i)),
        );
        state = inv_mix_columns(state);
        i += 1;
    }

    // the last round mixes no columns
    state = inv_shift_rows(state);
    state = inv_sub_bytes(state);
    state = add_roundkey(state, slice_subrange(schedule, 0, 16));
    Ok(state)
}

} // verus!
