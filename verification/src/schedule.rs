//! The key schedule: the round keys that a key is expanded into.

use vstd::prelude::*;
use crate::field::double;
use crate::key::{valid_key_size, AESKey, AesError};
use crate::model;
use crate::tables::SBOX;

verus! {

/// Computes the round constant of index `i`.
pub fn rcon(i: u8) -> (r: u8)
    ensures
        r == model::rcon(i as nat),
{
    if i == 0 {
        return 0;
    }
    let mut round_constant: u8 = 1;
    let mut counter = i;
    while counter != 1
        invariant
            1 <= counter <= i,
            round_constant == model::rcon((i - counter + 1) as nat),
        decreases counter,
    {
        round_constant = double(round_constant);
        counter -= 1;
    }
    round_constant
}

/// Substitutes each of the four bytes of a word.
fn sub_word(arr: [u8; 4]) -> (result: [u8; 4])
    ensures
        result@ == seq![
            model::sbox(arr@[0]),
            model::sbox(arr@[1]),
            model::sbox(arr@[2]),
            model::sbox(arr@[3]),
        ],
{
    let mut result = arr;
    for i in 0..4
        invariant
            forall|k: int| 0 <= k < i ==> result@[k] == model::sbox(arr@[k]),
            forall|k: int| i <= k < 4 ==> result@[k] == arr@[k],
    {
        result[i] = SBOX[result[i] as usize];
    }
    assert(result@ =~= seq![
        model::sbox(arr@[0]),
        model::sbox(arr@[1]),
        model::sbox(arr@[2]),
        model::sbox(arr@[3]),
    ]);
    result
}

/// The core of the key schedule: rotates the word left by one byte,
/// substitutes every byte, and mixes the round constant of index `n` into
/// the first.
pub fn schedule_core(arr: [u8; 4], n: u8) -> (result: [u8; 4])
    ensures
        result@ == model::schedule_core(arr@, n as nat),
{
    let mut result = [0u8;4];
    result[0] = arr[1];
    result[1] = arr[2];
    result[2] = arr[3];
    result[3] = arr[0];
    result = sub_word(result);
    let constant = rcon(n);
    result[0] = result[0] ^ constant;
    assert(result@ =~= model::schedule_core(arr@, n as nat));
    result
}

/// Where the schedule stands at a multiple of 4, the number of whole
/// strides before the last word is one less than the number before the next
/// exactly at a multiple of the key size.
proof fn lemma_stride(key_size: int, len: int)
    by (nonlinear_arith)
    requires
        key_size == 16 || key_size == 24 || key_size == 32,
        len % 4 == 0,
        len >= key_size,
    ensures
        len % key_size == 0 ==> (len - 4) / key_size + 1 == len / key_size,
        len % key_size != 0 ==> (len - 4) / key_size == len / key_size,
        0 <= (len - 4) / key_size <= len / 16,
{
}

/// The schedule starts with the key itself.
pub proof fn lemma_schedule_start(key: Seq<u8>)
    ensures
        forall|j: int| 0 <= j < key.len() ==> model::schedule_byte(key, j) == key[j],
{
    reveal(model::schedule_byte);
}

/// The four bytes of the schedule that start at `len`, a multiple of 4, are
/// the bytes a key's length before them mixed with the word made from the
/// four bytes just before `len`.
pub proof fn lemma_schedule_word(key: Seq<u8>, len: int, i: int)
    requires
        valid_key_size(key.len()),
        len % 4 == 0,
        len >= key.len(),
        0 <= i < 4,
    ensures
        model::schedule_byte(key, len + i) == model::schedule_byte(key, len + i - key.len())
            ^ model::schedule_mix(
            key.len() as int,
            len,
            seq![
                model::schedule_byte(key, len - 4),
                model::schedule_byte(key, len - 3),
                model::schedule_byte(key, len - 2),
                model::schedule_byte(key, len - 1),
            ],
        )[i],
{
    reveal(model::schedule_byte);
    assert((len + i) % 4 == i);
    assert((len + i) - (len + i) % 4 == len);
}

/// The word to mix into the schedule at offset `len`, from the word `prev`
/// that stands just before it and the count `n` of the next round constant.
fn mix_word(prev: [u8; 4], key_size: usize, len: usize, n: u8) -> (t: [u8; 4])
    requires
        valid_key_size(key_size as nat),
        len % key_size == 0 ==> n == len / key_size,
    ensures
        t@ == model::schedule_mix(key_size as int, len as int, prev@),
{
    let mut t = prev;
    // every so often the word goes through the schedule core
    if len % key_size == 0 {
        t = schedule_core(t, n);
    }
    // a 256-bit key has one more substitution in the middle of its stride
    if key_size * 8 == 256 {
        if len % key_size == 16 {
            t = sub_word(t);
        }
    }
    t
}

/// Expands a key of 16, 24 or 32 bytes into its schedule of 176, 208 or 240
/// bytes, and turns away a key of any other length.
pub fn expand_key<T: AESKey>(key: &T) -> (r: Result<Vec<u8>, AesError>)
    ensures
        match r {
            Ok(schedule) => valid_key_size(key.bytes().len()) && schedule@ == model::expand_key(
                key.bytes(),
            ),
            Err(e) => !valid_key_size(key.bytes().len()) && e == AesError::InvalidKeySize,
        },
{
    let key_size = key.size();
    let schedule_size: usize = match key_size {
        16 => 176,
        24 => 208,
        32 => 240,
        _ => {
            return Err(AesError::InvalidKeySize);
        },
    };
    let bytes = key.borrow();
    let mut schedule: Vec<u8> = Vec::with_capacity(schedule_size);

    // the first bytes of the schedule are the key itself
    let mut k: usize = 0;
    while k < key_size
        invariant
            k <= key_size,
            key_size == bytes@.len(),
            schedule@.len() == k,
            forall|j: int| 0 <= j < k ==> schedule@[j] == bytes@[j],
        decreases key_size - k,
    {
        schedule.push(bytes[k]);
        k += 1;
    }
    proof {
        lemma_schedule_start(key.bytes());
    }

    let mut t = [0u8;4];
    let mut n: u8 = 1;
    proof {
        lemma_stride(key_size as int, key_size as int);
    }
    while schedule.len() < schedule_size
        invariant
            valid_key_size(key_size as nat),
            key_size == key.bytes().len(),
            schedule_size == model::schedule_size(key_size as nat),
            key_size <= schedule@.len() <= schedule_size,
            schedule@.len() % 4 == 0,
            n == (schedule@.len() - 4) / (key_size as int) + 1,
            forall|j: int|
                0 <= j < schedule@.len() ==> schedule@[j] == model::schedule_byte(key.bytes(), j),
        decreases schedule_size - schedule@.len(),
    {
        let len = schedule.len();
        let ghost prev = seq![
            model::schedule_byte(key.bytes(), len - 4),
            model::schedule_byte(key.bytes(), len - 3),
            model::schedule_byte(key.bytes(), len - 2),
            model::schedule_byte(key.bytes(), len - 1),
        ];

        // grab the last four bytes of the schedule so far
        for i in 0..4
            invariant
                len == schedule@.len(),
                4 <= len <= 240,
                forall|j: int| 0 <= j < i ==> t@[j] == schedule@[j + len - 4],
        {
            t[i] = schedule[i + len - 4];
        }
        assert(t@ =~= prev);
        proof {
            lemma_stride(key_size as int, len as int);
        }
        t = mix_word(t, key_size, len, n);
        if len % key_size == 0 {
            n += 1;
        }
        // mix the word into the bytes one key length back and append
        for i in 0..4
            invariant
                len % 4 == 0,
                key_size <= len <= 236,
                key_size == key.bytes().len(),
                valid_key_size(key_size as nat),
                schedule@.len() == len + i,
                t@ == model::schedule_mix(key_size as int, len as int, prev),
                prev == seq![
                    model::schedule_byte(key.bytes(), len - 4),
                    model::schedule_byte(key.bytes(), len - 3),
                    model::schedule_byte(key.bytes(), len - 2),
                    model::schedule_byte(key.bytes(), len - 1),
                ],
                forall|j: int|
                    0 <= j < schedule@.len() ==> schedule@[j] == model::schedule_byte(
                        key.bytes(),
                        j,
                    ),
        {
            proof {
                lemma_schedule_word(key.bytes(), len as int, i as int);
            }
            let to_push = schedule[schedule.len() - key_size] ^ t[i];
            schedule.push(to_push);
        }
    }
    assert(schedule@ =~= model::expand_key(key.bytes()));
    Ok(schedule)
}

} // verus!
