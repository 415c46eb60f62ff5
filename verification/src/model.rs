//! The cipher as mathematics: what each step, the key schedule and the two
//! block operations compute, over sequences of bytes.
//!
//! A block is a sequence of 16 bytes that holds the 4x4 state column by
//! column: byte `i` sits in row `i % 4` of column `i / 4`.

use vstd::prelude::*;
use crate::field::{gf_mul, xtime};
use crate::key::valid_key_size;
use crate::tables::{INV_SBOX, INV_SHIFTS, SBOX, SHIFTS};

verus! {

/// The forward substitution of one byte.
pub open spec fn sbox(x: u8) -> u8 {
    SBOX[x as int]
}

/// The inverse substitution of one byte.
pub open spec fn inv_sbox(x: u8) -> u8 {
    INV_SBOX[x as int]
}

/// The state with a round key mixed in, byte by byte.
pub open spec fn add_roundkey(state: Seq<u8>, rkey: Seq<u8>) -> Seq<u8> {
    Seq::new(16, |i: int| state[i] ^ rkey[i])
}

/// The state with every byte substituted.
pub open spec fn sub_bytes(state: Seq<u8>) -> Seq<u8> {
    Seq::new(16, |i: int| sbox(state[i]))
}

/// The state with every byte substituted back.
pub open spec fn inv_sub_bytes(state: Seq<u8>) -> Seq<u8> {
    Seq::new(16, |i: int| inv_sbox(state[i]))
}

/// The state with row `r` rotated left by `r` places.
pub open spec fn shift_rows(state: Seq<u8>) -> Seq<u8> {
    Seq::new(16, |i: int| state[SHIFTS[i] as int])
}

/// The state with row `r` rotated right by `r` places.
pub open spec fn inv_shift_rows(state: Seq<u8>) -> Seq<u8> {
    Seq::new(16, |i: int| state[INV_SHIFTS[i] as int])
}

/// One byte of a column times the polynomial `{03, 01, 01, 02}`: the byte
/// in the row of `a0`, where `a1`, `a2`, `a3` are the bytes of the rows
/// below it, wrapping round.
pub open spec fn mix_byte(a0: u8, a1: u8, a2: u8, a3: u8) -> u8 {
    gf_mul(a0, 2) ^ gf_mul(a1, 3) ^ a2 ^ a3
}

/// One byte of a column times the polynomial `{0b, 0d, 09, 0e}`, with the
/// arguments as in `mix_byte`.
pub open spec fn inv_mix_byte(a0: u8, a1: u8, a2: u8, a3: u8) -> u8 {
    gf_mul(a0, 14) ^ gf_mul(a3, 9) ^ gf_mul(a2, 13) ^ gf_mul(a1, 11)
}

/// The state with every column mixed.
pub open spec fn mix_columns(state: Seq<u8>) -> Seq<u8> {
    Seq::new(
        16,
        |i: int|
            {
                let c = 4 * (i / 4);
                let r = i % 4;
                mix_byte(
                    state[c + r],
                    state[c + (r + 1) % 4],
                    state[c + (r + 2) % 4],
                    state[c + (r + 3) % 4],
                )
            },
    )
}

/// The state with every column mixed back.
pub open spec fn inv_mix_columns(state: Seq<u8>) -> Seq<u8> {
    Seq::new(
        16,
        |i: int|
            {
                let c = 4 * (i / 4);
                let r = i % 4;
                inv_mix_byte(
                    state[c + r],
                    state[c + (r + 1) % 4],
                    state[c + (r + 2) % 4],
                    state[c + (r + 3) % 4],
                )
            },
    )
}

/// Where the column of state index `i` starts, and that its four bytes lie
/// in that column, in rows 0 to 3.
pub proof fn lemma_column_indices(i: int)
    requires
        0 <= i < 16,
    ensures
        ({
            let c = 4 * (i / 4);
            &&& c == 0 || c == 4 || c == 8 || c == 12
            &&& c <= i <= c + 3
            &&& i % 4 == i - c
            &&& 4 * (c / 4) == c && c % 4 == 0
            &&& 4 * ((c + 1) / 4) == c && (c + 1) % 4 == 1
            &&& 4 * ((c + 2) / 4) == c && (c + 2) % 4 == 2
            &&& 4 * ((c + 3) / 4) == c && (c + 3) % 4 == 3
        }),
{
}

/// The round constant of index `i`: nothing for 0, then the powers of `x`
/// in the field, starting at 1.
pub open spec fn rcon(i: nat) -> u8
    decreases i,
{
    if i == 0 {
        0
    } else if i == 1 {
        1
    } else {
        xtime(rcon((i - 1) as nat))
    }
}

/// The core of the key schedule on the word `arr`: rotate it left by one
/// byte, substitute every byte, and mix the round constant of index `n` into
/// the first.
pub open spec fn schedule_core(arr: Seq<u8>, n: nat) -> Seq<u8> {
    seq![sbox(arr[1]) ^ rcon(n), sbox(arr[2]), sbox(arr[3]), sbox(arr[0])]
}

/// How many rounds a key of `key_size` bytes gives.
pub open spec fn round_count(key_size: nat) -> nat {
    if key_size == 16 {
        11
    } else if key_size == 24 {
        13
    } else {
        15
    }
}

/// How many bytes the schedule of a key of `key_size` bytes has.
pub open spec fn schedule_size(key_size: nat) -> nat {
    16 * round_count(key_size)
}

/// The word that is mixed into the schedule at offset `w`, a multiple of 4,
/// given the word `prev` that stands just before it: the core of `prev` at
/// each multiple of the key size, `prev` substituted in the middle of a
/// 32-byte key's stride, and `prev` itself elsewhere.
pub open spec fn schedule_mix(key_size: int, w: int, prev: Seq<u8>) -> Seq<u8> {
    if w % key_size == 0 {
        schedule_core(prev, (w / key_size) as nat)
    } else if key_size == 32 && w % key_size == 16 {
        seq![sbox(prev[0]), sbox(prev[1]), sbox(prev[2]), sbox(prev[3])]
    } else {
        prev
    }
}

/// Byte `i` of the schedule of `key`: the key's own bytes first, then each
/// byte is the one a key's length before it mixed with its share of the word
/// that `schedule_mix` gives. (Bytes shorter than a word are no key, and
/// have nothing after them.) The definition is opaque: reveal it, or go by
/// the two lemmas on the schedule's start and on its words.
#[verifier::opaque]
pub open spec fn schedule_byte(key: Seq<u8>, i: int) -> u8
    recommends
        valid_key_size(key.len()),
        0 <= i,
    decreases i,
{
    let key_size = key.len() as int;
    if i < key_size || key_size < 4 {
        key[i]
    } else {
        let w = i - i % 4;
        let prev = seq![
            schedule_byte(key, w - 4),
            schedule_byte(key, w - 3),
            schedule_byte(key, w - 2),
            schedule_byte(key, w - 1),
        ];
        schedule_byte(key, i - key_size) ^ schedule_mix(key_size, w, prev)[i % 4]
    }
}

/// The whole schedule of `key`.
pub open spec fn expand_key(key: Seq<u8>) -> Seq<u8> {
    Seq::new(schedule_size(key.len()), |i: int| schedule_byte(key, i))
}

/// The round key of round `r`.
pub open spec fn round_key(schedule: Seq<u8>, r: int) -> Seq<u8> {
    schedule.subrange(16 * r, 16 * r + 16)
}

/// The state after round `r` of encryption, for `r` before the last round.
pub open spec fn encrypt_rounds(block: Seq<u8>, schedule: Seq<u8>, r: nat) -> Seq<u8>
    decreases r,
{
    if r == 0 {
        add_roundkey(block, round_key(schedule, 0))
    } else {
        let before = encrypt_rounds(block, schedule, (r - 1) as nat);
        add_roundkey(mix_columns(shift_rows(sub_bytes(before))), round_key(schedule, r as int))
    }
}

/// The block encrypted under a schedule of `rounds` round keys: the last
/// round mixes no columns.
pub open spec fn encrypt_with(block: Seq<u8>, schedule: Seq<u8>, rounds: nat) -> Seq<u8> {
    let before = encrypt_rounds(block, schedule, (rounds - 2) as nat);
    add_roundkey(shift_rows(sub_bytes(before)), round_key(schedule, rounds - 1))
}

/// The state after round `r` of decryption, for `r` before the last round.
/// The round keys are taken from the last one backwards.
pub open spec fn decrypt_rounds(block: Seq<u8>, schedule: Seq<u8>, rounds: nat, r: nat) -> Seq<
    u8,
>
    decreases r,
{
    if r == 0 {
        add_roundkey(block, round_key(schedule, rounds - 1))
    } else {
        let before = decrypt_rounds(block, schedule, rounds, (r - 1) as nat);
        inv_mix_columns(
            add_roundkey(inv_sub_bytes(inv_shift_rows(before)), round_key(schedule, rounds - 1 - r)),
        )
    }
}

/// The block decrypted under a schedule of `rounds` round keys.
pub open spec fn decrypt_with(block: Seq<u8>, schedule: Seq<u8>, rounds: nat) -> Seq<u8> {
    let before = decrypt_rounds(block, schedule, rounds, (rounds - 2) as nat);
    add_roundkey(inv_sub_bytes(inv_shift_rows(before)), round_key(schedule, 0))
}

/// The block encrypted under `key`.
pub open spec fn encrypt(block: Seq<u8>, key: Seq<u8>) -> Seq<u8>
    recommends
        block.len() == 16,
        valid_key_size(key.len()),
{
    encrypt_with(block, expand_key(key), round_count(key.len()))
}

/// The block decrypted under `key`.
pub open spec fn decrypt(block: Seq<u8>, key: Seq<u8>) -> Seq<u8>
    recommends
        block.len() == 16,
        valid_key_size(key.len()),
{
    decrypt_with(block, expand_key(key), round_count(key.len()))
}

} // verus!
