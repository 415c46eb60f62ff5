//! The steps that a round is made of, each on a whole 16-byte state.

use vstd::prelude::*;
use crate::field::{double, gmul, xtime};
use crate::model;
use crate::tables::{INV_SBOX, INV_SHIFTS, SBOX, SHIFTS};

verus! {

/// Mixes a round key into the state. The step is its own inverse.
pub fn add_roundkey(state: [u8; 16], rkey: &[u8]) -> (result: [u8; 16])
    requires
        rkey@.len() >= 16,
    ensures
        result@ == model::add_roundkey(state@, rkey@),
{
    let mut result = [0u8;16];
    for i in 0..16
        invariant
            rkey@.len() >= 16,
            forall|k: int| 0 <= k < i ==> result@[k] == state@[k] ^ rkey@[k],
    {
        result[i] = state[i] ^ rkey[i];
    }
    assert(result@ =~= model::add_roundkey(state@, rkey@));
    result
}

/// Substitutes every byte of the state through the forward table.
pub fn sub_bytes(state: [u8; 16]) -> (result: [u8; 16])
    ensures
        result@ == model::sub_bytes(state@),
{
    let mut result = [0u8;16];
    for i in 0..16
        invariant
            forall|k: int| 0 <= k < i ==> result@[k] == model::sbox(state@[k]),
    {
        result[i] = SBOX[state[i] as usize];
    }
    assert(result@ =~= model::sub_bytes(state@));
    result
}

/// Substitutes every byte of the state through the inverse table.
pub fn inv_sub_bytes(state: [u8; 16]) -> (result: [u8; 16])
    ensures
        result@ == model::inv_sub_bytes(state@),
{
    let mut result = [0u8;16];
    for i in 0..16
        invariant
            forall|k: int| 0 <= k < i ==> result@[k] == model::inv_sbox(state@[k]),
    {
        result[i] = INV_SBOX[state[i] as usize];
    }
    assert(result@ =~= model::inv_sub_bytes(state@));
    result
}

/// Rotates row `r` of the state left by `r` places.
pub fn shift_rows(state: [u8; 16]) -> (result: [u8; 16])
    ensures
        result@ == model::shift_rows(state@),
{
    let mut result = [0u8;16];
    for i in 0..16
        invariant
            forall|k: int| 0 <= k < i ==> result@[k] == state@[SHIFTS[k] as int],
    {
        result[i] = state[SHIFTS[i] as usize];
    }
    assert(result@ =~= model::shift_rows(state@));
    result
}

/// Rotates row `r` of the state right by `r` places.
pub fn inv_shift_rows(state: [u8; 16]) -> (result: [u8; 16])
    ensures
        result@ == model::inv_shift_rows(state@),
{
    let mut result = [0u8;16];
    for i in 0..16
        invariant
            forall|k: int| 0 <= k < i ==> result@[k] == state@[INV_SHIFTS[k] as int],
    {
        result[i] = state[INV_SHIFTS[i] as usize];
    }
    assert(result@ =~= model::inv_shift_rows(state@));
    result
}

/// Doubling a byte and adding it is multiplying by 2 and by 3 in the field,
/// so the sum of doubled and plain bytes that `mix_columns` forms is the
/// column times the fixed polynomial.
proof fn lemma_mix_by_doubling(a0: u8, a1: u8, a2: u8, a3: u8)
    by (bit_vector)
    ensures
        xtime(a0) ^ a3 ^ a2 ^ xtime(a1) ^ a1 == model::mix_byte(a0, a1, a2, a3),
{
}

/// Multiplies every column of the state, read as a polynomial over the
/// field, by the fixed polynomial `{03, 01, 01, 02}`.
pub fn mix_columns(state: [u8; 16]) -> (result: [u8; 16])
    ensures
        result@ == model::mix_columns(state@),
{
    let mut result = [0u8;16];
    for i in 0..4
        invariant
            forall|k: int| 0 <= k < 4 * i ==> result@[k] == model::mix_columns(state@)[k],
    {
        let mut a = [0u8;4];
        let mut b = [0u8;4];
        for j in 0..4
            invariant
                0 <= i < 4,
                forall|k: int| 0 <= k < j ==> a@[k] == state@[k + 4 * i],
                forall|k: int| 0 <= k < j ==> b@[k] == xtime(state@[k + 4 * i]),
        {
            a[j] = state[j + 4 * i];
            b[j] = double(state[j + 4 * i]);
        }
        proof {
            let mixed = model::mix_columns(state@);
            model::lemma_column_indices(4 * i as int);
            assert(mixed[4 * i] == model::mix_byte(a@[0], a@[1], a@[2], a@[3]));
            assert(mixed[4 * i + 1] == model::mix_byte(a@[1], a@[2], a@[3], a@[0]));
            assert(mixed[4 * i + 2] == model::mix_byte(a@[2], a@[3], a@[0], a@[1]));
            assert(mixed[4 * i + 3] == model::mix_byte(a@[3], a@[0], a@[1], a@[2]));
            lemma_mix_by_doubling(a@[0], a@[1], a@[2], a@[3]);
            lemma_mix_by_doubling(a@[1], a@[2], a@[3], a@[0]);
            lemma_mix_by_doubling(a@[2], a@[3], a@[0], a@[1]);
            lemma_mix_by_doubling(a@[3], a@[0], a@[1], a@[2]);
        }
        result[4 * i] = b[0] ^ a[3] ^ a[2] ^ b[1] ^ a[1];
        result[1 + 4 * i] = b[1] ^ a[0] ^ a[3] ^ b[2] ^ a[2];
        result[2 + 4 * i] = b[2] ^ a[1] ^ a[0] ^ b[3] ^ a[3];
        result[3 + 4 * i] = b[3] ^ a[2] ^ a[1] ^ b[0] ^ a[0];
    }
    assert(result@ =~= model::mix_columns(state@));
    result
}

/// Multiplies every column of the state by `{0b, 0d, 09, 0e}`, the inverse
/// of the polynomial of `mix_columns`.
pub fn inv_mix_columns(state: [u8; 16]) -> (result: [u8; 16])
    ensures
        result@ == model::inv_mix_columns(state@),
{
    let mut result = [0u8;16];
    for i in 0..4
        invariant
            forall|k: int| 0 <= k < 4 * i ==> result@[k] == model::inv_mix_columns(state@)[k],
    {
        let mut a = [0u8;4];
        for j in 0..4
            invariant
                0 <= i < 4,
                forall|k: int| 0 <= k < j ==> a@[k] == state@[k + 4 * i],
        {
            a[j] = state[j + 4 * i];
        }
        proof {
            let mixed = model::inv_mix_columns(state@);
            model::lemma_column_indices(4 * i as int);
            assert(mixed[4 * i] == model::inv_mix_byte(a@[0], a@[1], a@[2], a@[3]));
            assert(mixed[4 * i + 1] == model::inv_mix_byte(a@[1], a@[2], a@[3], a@[0]));
            assert(mixed[4 * i + 2] == model::inv_mix_byte(a@[2], a@[3], a@[0], a@[1]));
            assert(mixed[4 * i + 3] == model::inv_mix_byte(a@[3], a@[0], a@[1], a@[2]));
        }
        result[4 * i] = gmul(a[0], 14) ^ gmul(a[3], 9) ^ gmul(a[2], 13) ^ gmul(a[1], 11);
        result[1 + 4 * i] = gmul(a[1], 14) ^ gmul(a[0], 9) ^ gmul(a[3], 13) ^ gmul(a[2], 11);
        result[2 + 4 * i] = gmul(a[2], 14) ^ gmul(a[1], 9) ^ gmul(a[0], 13) ^ gmul(a[3], 11);
        result[3 + 4 * i] = gmul(a[3], 14) ^ gmul(a[2], 9) ^ gmul(a[1], 13) ^ gmul(a[0], 11);
    }
    assert(result@ =~= model::inv_mix_columns(state@));
    result
}

} // verus!
