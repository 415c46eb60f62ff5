//! What holds between the parts of the cipher: each step is undone by its
//! inverse, and so decryption undoes encryption.

use vstd::prelude::*;
use crate::field::{gf_mul, xtime};
use crate::key::valid_key_size;
use crate::model;
use crate::tables::{lemma_inv_sbox_inverse, lemma_sbox_inverse, lemma_shifts_inverse};

verus! {

/// Multiplying by zero gives zero, and multiplying by one changes nothing.
pub proof fn lemma_mul_zero_one(a: u8)
    by (bit_vector)
    ensures
        gf_mul(a, 0) == 0,
        gf_mul(a, 1) == a,
{
}

/// The schedule of a key of 16, 24 or 32 bytes has 176, 208 or 240 bytes:
/// 16 for each round.
pub proof fn lemma_schedule_length(key: Seq<u8>)
    requires
        valid_key_size(key.len()),
    ensures
        key.len() == 16 ==> model::expand_key(key).len() == 176,
        key.len() == 24 ==> model::expand_key(key).len() == 208,
        key.len() == 32 ==> model::expand_key(key).len() == 240,
        model::expand_key(key).len() == 16 * model::round_count(key.len()),
        model::expand_key(key).subrange(0, key.len() as int) == key,
{
    reveal(model::schedule_byte);
    assert(model::expand_key(key).subrange(0, key.len() as int) =~= key);
}

proof fn lemma_xor_twice(a: u8, k: u8)
    by (bit_vector)
    ensures
        (a ^ k) ^ k == a,
{
}

/// Mixing the same round key in twice gives the state back.
pub proof fn lemma_add_roundkey_twice(state: Seq<u8>, rkey: Seq<u8>)
    requires
        state.len() == 16,
    ensures
        model::add_roundkey(model::add_roundkey(state, rkey), rkey) == state,
{
    assert forall|i: int| 0 <= i < 16 implies (state[i] ^ rkey[i]) ^ rkey[i] == state[i] by {
        lemma_xor_twice(state[i], rkey[i]);
    }
    assert(model::add_roundkey(model::add_roundkey(state, rkey), rkey) =~= state);
}

/// The inverse substitution undoes the substitution.
pub proof fn lemma_inv_sub_bytes(state: Seq<u8>)
    requires
        state.len() == 16,
    ensures
        model::inv_sub_bytes(model::sub_bytes(state)) == state,
{
    assert forall|i: int| 0 <= i < 16 implies model::inv_sbox(model::sbox(state[i]))
        == state[i] by {
        lemma_sbox_inverse(state[i]);
    }
    assert(model::inv_sub_bytes(model::sub_bytes(state)) =~= state);
}

/// The inverse row shift undoes the row shift.
pub proof fn lemma_inv_shift_rows(state: Seq<u8>)
    requires
        state.len() == 16,
    ensures
        model::inv_shift_rows(model::shift_rows(state)) == state,
{
    assert forall|i: int| 0 <= i < 16 implies model::inv_shift_rows(model::shift_rows(state))[i]
        == state[i] by {
        lemma_shifts_inverse(i);
    }
    assert(model::inv_shift_rows(model::shift_rows(state)) =~= state);
}

/// The substitution undoes the inverse substitution.
pub proof fn lemma_sub_inv_sub_bytes(state: Seq<u8>)
    requires
        state.len() == 16,
    ensures
        model::sub_bytes(model::inv_sub_bytes(state)) == state,
{
    assert forall|i: int| 0 <= i < 16 implies model::sbox(model::inv_sbox(state[i]))
        == state[i] by {
        lemma_inv_sbox_inverse(state[i]);
    }
    assert(model::sub_bytes(model::inv_sub_bytes(state)) =~= state);
}

/// The row shift undoes the inverse row shift.
pub proof fn lemma_shift_inv_shift_rows(state: Seq<u8>)
    requires
        state.len() == 16,
    ensures
        model::shift_rows(model::inv_shift_rows(state)) == state,
{
    assert forall|i: int| 0 <= i < 16 implies model::shift_rows(model::inv_shift_rows(state))[i]
        == state[i] by {
        lemma_shifts_inverse(i);
    }
    assert(model::shift_rows(model::inv_shift_rows(state)) =~= state);
}

/// Doubling goes through a sum.
proof fn lemma_xtime_sum(v: u8, w: u8, x: u8, y: u8, z: u8)
    by (bit_vector)
    ensures
        xtime(v ^ w ^ x ^ y ^ z) == xtime(v) ^ xtime(w) ^ xtime(x) ^ xtime(y) ^ xtime(z),
{
}

/// A mixed byte as a sum of doubled and plain bytes.
proof fn lemma_mix_byte_sum(a0: u8, a1: u8, a2: u8, a3: u8)
    by (bit_vector)
    ensures
        model::mix_byte(a0, a1, a2, a3) == xtime(a0) ^ xtime(a1) ^ a1 ^ a2 ^ a3,
{
}

/// An inversely mixed byte as a sum of bytes doubled up to three times.
proof fn lemma_inv_mix_byte_sum(m0: u8, m1: u8, m2: u8, m3: u8)
    by (bit_vector)
    ensures
        model::inv_mix_byte(m0, m1, m2, m3) == (xtime(xtime(xtime(m0))) ^ xtime(xtime(m0)) ^ xtime(
            m0,
        )) ^ (xtime(xtime(xtime(m3))) ^ m3) ^ (xtime(xtime(xtime(m2))) ^ xtime(xtime(m2)) ^ m2) ^ (
        xtime(xtime(xtime(m1))) ^ xtime(m1) ^ m1),
{
}

/// A mixed byte, doubled up to three times, as a sum over the bytes of its
/// column doubled up to four times.
proof fn lemma_mix_byte_doubled(a0: u8, a1: u8, a2: u8, a3: u8)
    ensures
        ({
            let m = model::mix_byte(a0, a1, a2, a3);
            let (b0, b1, b2, b3) = (xtime(a0), xtime(a1), xtime(a2), xtime(a3));
            let (c0, c1, c2, c3) = (xtime(b0), xtime(b1), xtime(b2), xtime(b3));
            let (d0, d1, d2, d3) = (xtime(c0), xtime(c1), xtime(c2), xtime(c3));
            let (e0, e1) = (xtime(d0), xtime(d1));
            &&& m == b0 ^ b1 ^ a1 ^ a2 ^ a3
            &&& xtime(m) == c0 ^ c1 ^ b1 ^ b2 ^ b3
            &&& xtime(xtime(m)) == d0 ^ d1 ^ c1 ^ c2 ^ c3
            &&& xtime(xtime(xtime(m))) == e0 ^ e1 ^ d1 ^ d2 ^ d3
        }),
{
    let (b0, b1, b2, b3) = (xtime(a0), xtime(a1), xtime(a2), xtime(a3));
    let (c0, c1, c2, c3) = (xtime(b0), xtime(b1), xtime(b2), xtime(b3));
    let (d0, d1, d2, d3) = (xtime(c0), xtime(c1), xtime(c2), xtime(c3));
    lemma_mix_byte_sum(a0, a1, a2, a3);
    lemma_xtime_sum(b0, b1, a1, a2, a3);
    lemma_xtime_sum(c0, c1, b1, b2, b3);
    lemma_xtime_sum(d0, d1, c1, c2, c3);
}

/// On one column, the inverse mix of the mixed bytes gives the byte back:
/// the two polynomials multiply to one, whatever doubling does, as long as
/// it goes through sums.
proof fn lemma_inv_mix_byte(a0: u8, a1: u8, a2: u8, a3: u8)
    ensures
        model::inv_mix_byte(
            model::mix_byte(a0, a1, a2, a3),
            model::mix_byte(a1, a2, a3, a0),
            model::mix_byte(a2, a3, a0, a1),
            model::mix_byte(a3, a0, a1, a2),
        ) == a0,
{
    let m0 = model::mix_byte(a0, a1, a2, a3);
    let m1 = model::mix_byte(a1, a2, a3, a0);
    let m2 = model::mix_byte(a2, a3, a0, a1);
    let m3 = model::mix_byte(a3, a0, a1, a2);
    let (b0, b1, b2, b3) = (xtime(a0), xtime(a1), xtime(a2), xtime(a3));
    let (c0, c1, c2, c3) = (xtime(b0), xtime(b1), xtime(b2), xtime(b3));
    let (d0, d1, d2, d3) = (xtime(c0), xtime(c1), xtime(c2), xtime(c3));
    let (e0, e1, e2, e3) = (xtime(d0), xtime(d1), xtime(d2), xtime(d3));
    let (m0x, m0y, m0z) = (xtime(m0), xtime(xtime(m0)), xtime(xtime(xtime(m0))));
    let (m1x, m1z) = (xtime(m1), xtime(xtime(xtime(m1))));
    let (m2y, m2z) = (xtime(xtime(m2)), xtime(xtime(xtime(m2))));
    let m3z = xtime(xtime(xtime(m3)));
    lemma_mix_byte_doubled(a0, a1, a2, a3);
    lemma_mix_byte_doubled(a1, a2, a3, a0);
    lemma_mix_byte_doubled(a2, a3, a0, a1);
    lemma_mix_byte_doubled(a3, a0, a1, a2);
    lemma_inv_mix_byte_sum(m0, m1, m2, m3);
    assert((m0z ^ m0y ^ m0x) ^ (m3z ^ m3) ^ (m2z ^ m2y ^ m2) ^ (m1z ^ m1x ^ m1) == a0)
        by (bit_vector)
        requires
            m0x == c0 ^ c1 ^ b1 ^ b2 ^ b3,
            m0y == d0 ^ d1 ^ c1 ^ c2 ^ c3,
            m0z == e0 ^ e1 ^ d1 ^ d2 ^ d3,
            m1 == b1 ^ b2 ^ a2 ^ a3 ^ a0,
            m1x == c1 ^ c2 ^ b2 ^ b3 ^ b0,
            m1z == e1 ^ e2 ^ d2 ^ d3 ^ d0,
            m2 == b2 ^ b3 ^ a3 ^ a0 ^ a1,
            m2y == d2 ^ d3 ^ c3 ^ c0 ^ c1,
            m2z == e2 ^ e3 ^ d3 ^ d0 ^ d1,
            m3 == b3 ^ b0 ^ a0 ^ a1 ^ a2,
            m3z == e3 ^ e0 ^ d0 ^ d1 ^ d2,
    ;
}

/// Doubling goes through the sum that an inversely mixed byte is.
proof fn lemma_xtime_long_sum(
    p: u8,
    q: u8,
    r: u8,
    s: u8,
    t: u8,
    u: u8,
    v: u8,
    w: u8,
    x: u8,
    y: u8,
    z: u8,
)
    by (bit_vector)
    ensures
        xtime((p ^ q ^ r) ^ (s ^ t) ^ (u ^ v ^ w) ^ (x ^ y ^ z)) == (xtime(p) ^ xtime(q) ^ xtime(r))
            ^ (xtime(s) ^ xtime(t)) ^ (xtime(u) ^ xtime(v) ^ xtime(w)) ^ (xtime(x) ^ xtime(y)
            ^ xtime(z)),
{
}

/// On one column, the mix of the inversely mixed bytes gives the byte back.
proof fn lemma_mix_inv_mix_byte(a0: u8, a1: u8, a2: u8, a3: u8)
    ensures
        model::mix_byte(
            model::inv_mix_byte(a0, a1, a2, a3),
            model::inv_mix_byte(a1, a2, a3, a0),
            model::inv_mix_byte(a2, a3, a0, a1),
            model::inv_mix_byte(a3, a0, a1, a2),
        ) == a0,
{
    let n0 = model::inv_mix_byte(a0, a1, a2, a3);
    let n1 = model::inv_mix_byte(a1, a2, a3, a0);
    let n2 = model::inv_mix_byte(a2, a3, a0, a1);
    let n3 = model::inv_mix_byte(a3, a0, a1, a2);
    let (b0, b1, b2, b3) = (xtime(a0), xtime(a1), xtime(a2), xtime(a3));
    let (c0, c1, c2, c3) = (xtime(b0), xtime(b1), xtime(b2), xtime(b3));
    let (d0, d1, d2, d3) = (xtime(c0), xtime(c1), xtime(c2), xtime(c3));
    let (e0, e1, e2, e3) = (xtime(d0), xtime(d1), xtime(d2), xtime(d3));
    let (n0x, n1x) = (xtime(n0), xtime(n1));
    lemma_inv_mix_byte_sum(a0, a1, a2, a3);
    lemma_inv_mix_byte_sum(a1, a2, a3, a0);
    lemma_inv_mix_byte_sum(a2, a3, a0, a1);
    lemma_inv_mix_byte_sum(a3, a0, a1, a2);
    lemma_xtime_long_sum(d0, c0, b0, d3, a3, d2, c2, a2, d1, b1, a1);
    lemma_xtime_long_sum(d1, c1, b1, d0, a0, d3, c3, a3, d2, b2, a2);
    lemma_mix_byte_sum(n0, n1, n2, n3);
    assert(n0x ^ n1x ^ n1 ^ n2 ^ n3 == a0) by (bit_vector)
        requires
            n0x == (e0 ^ d0 ^ c0) ^ (e3 ^ b3) ^ (e2 ^ d2 ^ b2) ^ (e1 ^ c1 ^ b1),
            n1x == (e1 ^ d1 ^ c1) ^ (e0 ^ b0) ^ (e3 ^ d3 ^ b3) ^ (e2 ^ c2 ^ b2),
            n1 == (d1 ^ c1 ^ b1) ^ (d0 ^ a0) ^ (d3 ^ c3 ^ a3) ^ (d2 ^ b2 ^ a2),
            n2 == (d2 ^ c2 ^ b2) ^ (d1 ^ a1) ^ (d0 ^ c0 ^ a0) ^ (d3 ^ b3 ^ a3),
            n3 == (d3 ^ c3 ^ b3) ^ (d2 ^ a2) ^ (d1 ^ c1 ^ a1) ^ (d0 ^ b0 ^ a0),
    ;
}

/// The column mix undoes the inverse column mix.
pub proof fn lemma_mix_inv_mix_columns(state: Seq<u8>)
    requires
        state.len() == 16,
    ensures
        model::mix_columns(model::inv_mix_columns(state)) == state,
{
    let mixed = model::inv_mix_columns(state);
    assert forall|i: int| 0 <= i < 16 implies model::mix_columns(mixed)[i] == state[i] by {
        let c = 4 * (i / 4);
        let (s0, s1, s2, s3) = (state[c], state[c + 1], state[c + 2], state[c + 3]);
        model::lemma_column_indices(i);
        assert(mixed[c] == model::inv_mix_byte(s0, s1, s2, s3));
        assert(mixed[c + 1] == model::inv_mix_byte(s1, s2, s3, s0));
        assert(mixed[c + 2] == model::inv_mix_byte(s2, s3, s0, s1));
        assert(mixed[c + 3] == model::inv_mix_byte(s3, s0, s1, s2));
        if i == c {
            lemma_mix_inv_mix_byte(s0, s1, s2, s3);
        } else if i == c + 1 {
            lemma_mix_inv_mix_byte(s1, s2, s3, s0);
        } else if i == c + 2 {
            lemma_mix_inv_mix_byte(s2, s3, s0, s1);
        } else {
            lemma_mix_inv_mix_byte(s3, s0, s1, s2);
        }
    }
    assert(model::mix_columns(mixed) =~= state);
}

/// The inverse column mix undoes the column mix.
pub proof fn lemma_inv_mix_columns(state: Seq<u8>)
    requires
        state.len() == 16,
    ensures
        model::inv_mix_columns(model::mix_columns(state)) == state,
{
    let mixed = model::mix_columns(state);
    assert forall|i: int| 0 <= i < 16 implies model::inv_mix_columns(mixed)[i] == state[i] by {
        let c = 4 * (i / 4);
        let (s0, s1, s2, s3) = (state[c], state[c + 1], state[c + 2], state[c + 3]);
        model::lemma_column_indices(i);
        assert(mixed[c] == model::mix_byte(s0, s1, s2, s3));
        assert(mixed[c + 1] == model::mix_byte(s1, s2, s3, s0));
        assert(mixed[c + 2] == model::mix_byte(s2, s3, s0, s1));
        assert(mixed[c + 3] == model::mix_byte(s3, s0, s1, s2));
        if i == c {
            lemma_inv_mix_byte(s0, s1, s2, s3);
        } else if i == c + 1 {
            lemma_inv_mix_byte(s1, s2, s3, s0);
        } else if i == c + 2 {
            lemma_inv_mix_byte(s2, s3, s0, s1);
        } else {
            lemma_inv_mix_byte(s3, s0, s1, s2);
        }
    }
    assert(model::inv_mix_columns(mixed) =~= state);
}

/// Round `r` of decrypting an encrypted block takes it back to where the
/// encryption stood before the column mix of round `rounds - 1 - r`.
proof fn lemma_decrypt_rounds(block: Seq<u8>, schedule: Seq<u8>, rounds: nat, r: nat)
    requires
        block.len() == 16,
        rounds >= 2,
        r <= rounds - 2,
    ensures
        model::decrypt_rounds(model::encrypt_with(block, schedule, rounds), schedule, rounds, r)
            == model::shift_rows(
            model::sub_bytes(model::encrypt_rounds(block, schedule, (rounds - 2 - r) as nat)),
        ),
    decreases r,
{
    let sealed = model::encrypt_with(block, schedule, rounds);
    let reached = model::encrypt_rounds(block, schedule, (rounds - 2 - r) as nat);
    let shifted = model::shift_rows(model::sub_bytes(reached));
    if r == 0 {
        lemma_add_roundkey_twice(shifted, model::round_key(schedule, rounds - 1));
    } else {
        lemma_decrypt_rounds(block, schedule, rounds, (r - 1) as nat);
        let rkey = model::round_key(schedule, rounds - 1 - r);
        let after = model::encrypt_rounds(block, schedule, (rounds - 1 - r) as nat);
        assert(after == model::add_roundkey(model::mix_columns(shifted), rkey));
        lemma_inv_shift_rows(model::sub_bytes(after));
        lemma_inv_sub_bytes(after);
        lemma_add_roundkey_twice(model::mix_columns(shifted), rkey);
        lemma_inv_mix_columns(shifted);
    }
}

/// Decrypting under the schedule that a block was encrypted under gives the
/// block back, whatever the schedule holds.
pub proof fn lemma_decrypt_with_encrypt_with(block: Seq<u8>, schedule: Seq<u8>, rounds: nat)
    requires
        block.len() == 16,
        rounds >= 2,
    ensures
        model::decrypt_with(model::encrypt_with(block, schedule, rounds), schedule, rounds)
            == block,
{
    lemma_decrypt_rounds(block, schedule, rounds, (rounds - 2) as nat);
    let first = model::encrypt_rounds(block, schedule, 0);
    lemma_inv_shift_rows(model::sub_bytes(first));
    lemma_inv_sub_bytes(first);
    lemma_add_roundkey_twice(block, model::round_key(schedule, 0));
}

/// Round `r` of encrypting a decrypted block takes it back to where the
/// decryption stood after the substitution of round `rounds - 1 - r`.
proof fn lemma_encrypt_rounds(block: Seq<u8>, schedule: Seq<u8>, rounds: nat, r: nat)
    requires
        block.len() == 16,
        rounds >= 2,
        r <= rounds - 2,
    ensures
        model::encrypt_rounds(model::decrypt_with(block, schedule, rounds), schedule, r)
            == model::inv_sub_bytes(
            model::inv_shift_rows(
                model::decrypt_rounds(block, schedule, rounds, (rounds - 2 - r) as nat),
            ),
        ),
    decreases r,
{
    let reached = model::decrypt_rounds(block, schedule, rounds, (rounds - 2 - r) as nat);
    let opened = model::inv_sub_bytes(model::inv_shift_rows(reached));
    if r == 0 {
        lemma_add_roundkey_twice(opened, model::round_key(schedule, 0));
    } else {
        lemma_encrypt_rounds(block, schedule, rounds, (r - 1) as nat);
        let rkey = model::round_key(schedule, r as int);
        let after = model::decrypt_rounds(block, schedule, rounds, (rounds - 1 - r) as nat);
        assert(after == model::inv_mix_columns(model::add_roundkey(opened, rkey)));
        lemma_sub_inv_sub_bytes(model::inv_shift_rows(after));
        lemma_shift_inv_shift_rows(after);
        lemma_mix_inv_mix_columns(model::add_roundkey(opened, rkey));
        lemma_add_roundkey_twice(opened, rkey);
    }
}

/// Encrypting under the schedule that a block was decrypted under gives the
/// block back, whatever the schedule holds.
pub proof fn lemma_encrypt_with_decrypt_with(block: Seq<u8>, schedule: Seq<u8>, rounds: nat)
    requires
        block.len() == 16,
        rounds >= 2,
    ensures
        model::encrypt_with(model::decrypt_with(block, schedule, rounds), schedule, rounds)
            == block,
{
    lemma_encrypt_rounds(block, schedule, rounds, (rounds - 2) as nat);
    let first = model::decrypt_rounds(block, schedule, rounds, 0);
    lemma_sub_inv_sub_bytes(model::inv_shift_rows(first));
    lemma_shift_inv_shift_rows(first);
    lemma_add_roundkey_twice(block, model::round_key(schedule, rounds - 1));
}

/// Encrypting under the key that a block was decrypted under gives the
/// block back: on blocks of 16 bytes the two operations are inverse
/// permutations.
pub proof fn lemma_encrypt_decrypt(block: Seq<u8>, key: Seq<u8>)
    requires
        block.len() == 16,
        valid_key_size(key.len()),
    ensures
        model::encrypt(model::decrypt(block, key), key) == block,
{
    lemma_encrypt_with_decrypt_with(block, model::expand_key(key), model::round_count(key.len()));
}

/// Decrypting under the key that a block was encrypted under gives the
/// block back, for every block of 16 bytes and every key of 16, 24 or 32.
pub proof fn lemma_decrypt_encrypt(block: Seq<u8>, key: Seq<u8>)
    requires
        block.len() == 16,
        valid_key_size(key.len()),
    ensures
        model::decrypt(model::encrypt(block, key), key) == block,
{
    lemma_decrypt_with_encrypt_with(block, model::expand_key(key), model::round_count(key.len()));
}

} // verus!
