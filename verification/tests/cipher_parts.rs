use rijndael::block::{
    add_roundkey, inv_mix_columns, inv_shift_rows, inv_sub_bytes, mix_columns, shift_rows,
    sub_bytes,
};
use rijndael::field::{double, gmul};
use rijndael::schedule::{expand_key, rcon, schedule_core};
use rijndael::tables::{INV_SBOX, INV_SHIFTS, SBOX, SHIFTS};
use rijndael::{decrypt, encrypt, AESKey, AESKey128, AESKey192, AESKey256, AesError, Mode};

fn counting_block() -> [u8; 16] {
    let mut block = [0u8; 16];
    for i in 0..16 {
        block[i] = i as u8;
    }
    block
}

#[test]
fn gmul_zero_and_one() {
    for a in 0..=255u8 {
        assert_eq!(gmul(a, 0), 0);
        assert_eq!(gmul(a, 1), a);
        assert_eq!(gmul(0, a), 0);
        assert_eq!(gmul(1, a), a);
    }
}

#[test]
fn gmul_known_products() {
    assert_eq!(gmul(0x57, 0x83), 0xc1);
    assert_eq!(gmul(0x57, 0x13), 0xfe);
    assert_eq!(gmul(0x57, 0x02), 0xae);
    assert_eq!(gmul(0x53, 0xca), 0x01);
}

#[test]
fn gmul_commutes() {
    for a in 0..=255u8 {
        for b in 0..=255u8 {
            assert_eq!(gmul(a, b), gmul(b, a));
        }
    }
}

#[test]
fn double_reduces_on_overflow() {
    assert_eq!(double(0x57), 0xae);
    assert_eq!(double(0xae), 0x47);
    assert_eq!(double(0x80), 0x1b);
    assert_eq!(double(0x00), 0x00);
}

#[test]
fn sbox_tables_are_inverse() {
    for x in 0..=255u8 {
        assert_eq!(INV_SBOX[SBOX[x as usize] as usize], x);
        assert_eq!(SBOX[INV_SBOX[x as usize] as usize], x);
    }
}

#[test]
fn sbox_is_the_affine_image_of_the_field_inverse() {
    for x in 0..=255u8 {
        let mut inverse = 0u8;
        for y in 0..=255u8 {
            if gmul(x, y) == 1 {
                inverse = y;
            }
        }
        let image = inverse
            ^ inverse.rotate_left(1)
            ^ inverse.rotate_left(2)
            ^ inverse.rotate_left(3)
            ^ inverse.rotate_left(4)
            ^ 0x63;
        assert_eq!(SBOX[x as usize], image);
    }
}

#[test]
fn sbox_known_entries() {
    assert_eq!(SBOX[0x00], 0x63);
    assert_eq!(SBOX[0x53], 0xed);
    assert_eq!(SBOX[0xff], 0x16);
    assert_eq!(INV_SBOX[0x63], 0x00);
}

#[test]
fn shift_tables_are_inverse() {
    for i in 0..16usize {
        assert_eq!(INV_SHIFTS[SHIFTS[i] as usize] as usize, i);
        assert_eq!(SHIFTS[INV_SHIFTS[i] as usize] as usize, i);
    }
}

#[test]
fn shift_table_rotates_rows() {
    for i in 0..16usize {
        let row = i % 4;
        let column = i / 4;
        assert_eq!(SHIFTS[i] as usize, row + 4 * ((column + row) % 4));
    }
}

#[test]
fn add_roundkey_mixes_bytes() {
    let state = counting_block();
    let rkey = [0xffu8; 16];
    let mixed = add_roundkey(state, &rkey);
    for i in 0..16 {
        assert_eq!(mixed[i], 0xff - i as u8);
    }
    assert_eq!(add_roundkey(mixed, &rkey), state);
}

#[test]
fn sub_bytes_and_back() {
    let state = counting_block();
    let substituted = sub_bytes(state);
    assert_eq!(
        substituted,
        [
            0x63, 0x7c, 0x77, 0x7b, 0xf2, 0x6b, 0x6f, 0xc5, 0x30, 0x01, 0x67, 0x2b, 0xfe, 0xd7,
            0xab, 0x76
        ]
    );
    assert_eq!(inv_sub_bytes(substituted), state);
}

#[test]
fn shift_rows_and_back() {
    let state = counting_block();
    let shifted = shift_rows(state);
    assert_eq!(shifted, [0, 5, 10, 15, 4, 9, 14, 3, 8, 13, 2, 7, 12, 1, 6, 11]);
    assert_eq!(inv_shift_rows(shifted), state);
}

#[test]
fn mix_columns_and_back() {
    let state: [u8; 16] = [
        0xdb, 0x13, 0x53, 0x45, 0xf2, 0x0a, 0x22, 0x5c, 0x01, 0x01, 0x01, 0x01, 0xc6, 0xc6, 0xc6,
        0xc6,
    ];
    let mixed: [u8; 16] = [
        0x8e, 0x4d, 0xa1, 0xbc, 0x9f, 0xdc, 0x58, 0x9d, 0x01, 0x01, 0x01, 0x01, 0xc6, 0xc6, 0xc6,
        0xc6,
    ];
    assert_eq!(mix_columns(state), mixed);
    assert_eq!(inv_mix_columns(mixed), state);
}

#[test]
fn mix_columns_matches_field_products() {
    let state: [u8; 16] = [
        0x32, 0x88, 0x31, 0xe0, 0x43, 0x5a, 0x31, 0x37, 0xf6, 0x30, 0x98, 0x07, 0xa8, 0x8d, 0xa2,
        0x34,
    ];
    let mixed = mix_columns(state);
    for c in 0..4 {
        for r in 0..4 {
            let a0 = state[4 * c + r];
            let a1 = state[4 * c + (r + 1) % 4];
            let a2 = state[4 * c + (r + 2) % 4];
            let a3 = state[4 * c + (r + 3) % 4];
            assert_eq!(mixed[4 * c + r], gmul(a0, 2) ^ gmul(a1, 3) ^ a2 ^ a3);
        }
    }
}

#[test]
fn rcon_values() {
    let expected: [u8; 11] = [0x00, 0x01, 0x02, 0x04, 0x08, 0x10, 0x20, 0x40, 0x80, 0x1b, 0x36];
    for i in 0..11 {
        assert_eq!(rcon(i as u8), expected[i]);
    }
}

#[test]
fn schedule_core_rotates_substitutes_and_adds_constant() {
    assert_eq!(schedule_core([0x09, 0xcf, 0x4f, 0x3c], 1), [0x8b, 0x84, 0xeb, 0x01]);
    assert_eq!(schedule_core([0x09, 0xcf, 0x4f, 0x3c], 0), [0x8a, 0x84, 0xeb, 0x01]);
}

#[test]
fn schedule_lengths() {
    assert_eq!(expand_key(&AESKey128::new([0x11; 16])).unwrap().len(), 176);
    assert_eq!(expand_key(&AESKey192::new([0x22; 24])).unwrap().len(), 208);
    assert_eq!(expand_key(&AESKey256::new([0x33; 32])).unwrap().len(), 240);
}

#[test]
fn schedule_starts_with_the_key() {
    let mut key = [0u8; 32];
    for i in 0..32 {
        key[i] = (3 * i + 1) as u8;
    }
    let schedule = expand_key(&AESKey256::new(key)).unwrap();
    assert_eq!(&schedule[0..32], &key[..]);
}

#[test]
fn schedule_of_a_128_bit_key() {
    let key: [u8; 16] = [
        0x2b, 0x7e, 0x15, 0x16, 0x28, 0xae, 0xd2, 0xa6, 0xab, 0xf7, 0x15, 0x88, 0x09, 0xcf, 0x4f,
        0x3c,
    ];
    let schedule = expand_key(&AESKey128::new(key)).unwrap();
    assert_eq!(&schedule[16..20], &[0xa0, 0xfa, 0xfe, 0x17]);
    assert_eq!(&schedule[20..24], &[0x88, 0x54, 0x2c, 0xb1]);
    assert_eq!(
        &schedule[160..176],
        &[
            0xd0, 0x14, 0xf9, 0xa8, 0xc9, 0xee, 0x25, 0x89, 0xe1, 0x3f, 0x0c, 0xc8, 0xb6, 0x63,
            0x0c, 0xa6
        ]
    );
}

#[test]
fn schedule_of_a_192_bit_key() {
    let key: [u8; 24] = [
        0x8e, 0x73, 0xb0, 0xf7, 0xda, 0x0e, 0x64, 0x52, 0xc8, 0x10, 0xf3, 0x2b, 0x80, 0x90, 0x79,
        0xe5, 0x62, 0xf8, 0xea, 0xd2, 0x52, 0x2c, 0x6b, 0x7b,
    ];
    let schedule = expand_key(&AESKey192::new(key)).unwrap();
    assert_eq!(&schedule[24..28], &[0xfe, 0x0c, 0x91, 0xf7]);
    assert_eq!(&schedule[204..208], &[0x01, 0x00, 0x22, 0x02]);
}

#[test]
fn schedule_of_a_256_bit_key() {
    let key: [u8; 32] = [
        0x60, 0x3d, 0xeb, 0x10, 0x15, 0xca, 0x71, 0xbe, 0x2b, 0x73, 0xae, 0xf0, 0x85, 0x7d, 0x77,
        0x81, 0x1f, 0x35, 0x2c, 0x07, 0x3b, 0x61, 0x08, 0xd7, 0x2d, 0x98, 0x10, 0xa3, 0x09, 0x14,
        0xdf, 0xf4,
    ];
    let schedule = expand_key(&AESKey256::new(key)).unwrap();
    assert_eq!(&schedule[32..36], &[0x9b, 0xa3, 0x54, 0x11]);
    assert_eq!(&schedule[48..52], &[0xa8, 0xb0, 0x9c, 0x1a]);
    assert_eq!(&schedule[236..240], &[0x70, 0x6c, 0x63, 0x1e]);
}

#[test]
fn standard_vectors() {
    let pt: [u8; 16] = [
        0x00, 0x11, 0x22, 0x33, 0x44, 0x55, 0x66, 0x77, 0x88, 0x99, 0xaa, 0xbb, 0xcc, 0xdd, 0xee,
        0xff,
    ];
    let mut k128 = [0u8; 16];
    let mut k192 = [0u8; 24];
    let mut k256 = [0u8; 32];
    for i in 0..32 {
        if i < 16 {
            k128[i] = i as u8;
        }
        if i < 24 {
            k192[i] = i as u8;
        }
        k256[i] = i as u8;
    }
    let c128: [u8; 16] = [
        0x69, 0xc4, 0xe0, 0xd8, 0x6a, 0x7b, 0x04, 0x30, 0xd8, 0xcd, 0xb7, 0x80, 0x70, 0xb4, 0xc5,
        0x5a,
    ];
    let c192: [u8; 16] = [
        0xdd, 0xa9, 0x7c, 0xa4, 0x86, 0x4c, 0xdf, 0xe0, 0x6e, 0xaf, 0x70, 0xa0, 0xec, 0x0d, 0x71,
        0x91,
    ];
    let c256: [u8; 16] = [
        0x8e, 0xa2, 0xb7, 0xca, 0x51, 0x67, 0x45, 0xbf, 0xea, 0xfc, 0x49, 0x90, 0x4b, 0x49, 0x60,
        0x89,
    ];
    assert_eq!(encrypt(pt, &AESKey128::new(k128)), Ok(c128));
    assert_eq!(encrypt(pt, &AESKey192::new(k192)), Ok(c192));
    assert_eq!(encrypt(pt, &AESKey256::new(k256)), Ok(c256));
    assert_eq!(decrypt(c128, &AESKey128::new(k128)), Ok(pt));
    assert_eq!(decrypt(c192, &AESKey192::new(k192)), Ok(pt));
    assert_eq!(decrypt(c256, &AESKey256::new(k256)), Ok(pt));
}

#[test]
fn round_trip_over_many_blocks() {
    let mut key = [0u8; 32];
    let mut block = [0u8; 16];
    for round in 0..64u32 {
        for i in 0..32 {
            key[i] = (round as u8).wrapping_mul(31).wrapping_add((i as u8).wrapping_mul(7));
        }
        for i in 0..16 {
            block[i] = (round as u8).wrapping_mul(13).wrapping_add((i as u8).wrapping_mul(29));
        }
        let mut k128 = [0u8; 16];
        k128.copy_from_slice(&key[0..16]);
        let mut k192 = [0u8; 24];
        k192.copy_from_slice(&key[0..24]);
        let a = AESKey128::new(k128);
        let b = AESKey192::new(k192);
        let c = AESKey256::new(key);
        assert_eq!(decrypt(encrypt(block, &a).unwrap(), &a), Ok(block));
        assert_eq!(decrypt(encrypt(block, &b).unwrap(), &b), Ok(block));
        assert_eq!(decrypt(encrypt(block, &c).unwrap(), &c), Ok(block));
        assert_eq!(encrypt(decrypt(block, &a).unwrap(), &a), Ok(block));
        assert_ne!(encrypt(block, &a), Ok(block));
    }
}

#[test]
fn key_sizes_of_the_three_key_types() {
    assert_eq!(AESKey128::new([1; 16]).size(), 16);
    assert_eq!(AESKey192::new([2; 24]).size(), 24);
    assert_eq!(AESKey256::new([3; 32]).size(), 32);
    assert_eq!(AESKey128::new([7; 16]).borrow(), &[7u8; 16][..]);
}

#[test]
fn invalid_key_sizes_are_turned_away() {
    let block = [0u8; 16];
    for len in [0usize, 1, 15, 17, 23, 25, 31, 33, 64] {
        let key: Vec<u8> = vec![0xff; len];
        assert_eq!(encrypt(block, &key), Err(AesError::InvalidKeySize));
        assert_eq!(decrypt(block, &key), Err(AesError::InvalidKeySize));
        assert_eq!(expand_key(&key), Err(AesError::InvalidKeySize));
    }
}

#[test]
fn any_holder_of_key_bytes_of_a_valid_size_is_a_key() {
    let block = [0u8; 16];
    let loose: Vec<u8> = vec![0xff; 24];
    assert_eq!(loose.size(), 24);
    assert_eq!(encrypt(block, &loose), encrypt(block, &AESKey192::new([0xff; 24])));
}

#[test]
fn modes_are_told_apart() {
    let modes = [Mode::CBC, Mode::CFB, Mode::OFB, Mode::CTR];
    assert!(matches!(modes[0], Mode::CBC));
    assert!(matches!(modes[1], Mode::CFB));
    assert!(matches!(modes[2], Mode::OFB));
    assert!(matches!(modes[3], Mode::CTR));
}
