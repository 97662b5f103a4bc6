use soroban_sdk::{BytesN, Env};
use zava::address::Address;
use zava::bytes::{append_word, concat_words, decode_low_half, encode_word, same_word};
use zava::claim_words::savings_inputs;
use zava::merkle::{hash_pair, insert, is_known_root, ROOT_HISTORY_SIZE};
use zava::table::Table;

#[test]
fn words_of_numbers() {
    for n in [0u128, 1, 255, 256, 0x0102_0304, u64::MAX as u128, u128::MAX] {
        let word = encode_word(n);
        assert_eq!(&word[..16], &[0u8; 16]);
        assert_eq!(&word[16..], &n.to_be_bytes());
        assert_eq!(decode_low_half(&word), n);
    }
}

#[test]
fn words_compare_byte_by_byte() {
    let a = [7u8; 32];
    let mut b = a;
    assert!(same_word(&a, &b));
    b[31] = 8;
    assert!(!same_word(&a, &b));
}

#[test]
fn words_are_appended_in_order() {
    let mut out = concat_words(&[1; 32], &[2; 32]);
    append_word(&mut out, &[3; 32]);
    assert_eq!(out.len(), 96);
    assert_eq!((out[0], out[31], out[32], out[64], out[95]), (1, 1, 2, 3, 3));
}

#[test]
fn savings_inputs_in_circuit_order() {
    let amount = encode_word(400_000_000);
    let weeks = encode_word(2);
    let words = savings_inputs(amount, weeks, &vec![[1; 32], [2; 32]], &vec![[3; 32], [4; 32]]);
    assert_eq!(words.len(), 6);
    assert_eq!(words[0], amount);
    assert_eq!(words[1], weeks);
    assert_eq!(&words[2..], &[[1; 32], [2; 32], [3; 32], [4; 32]]);
}

#[test]
fn claims_that_differ_show_different_words() {
    let one = |amount: u128, weeks: u128, c: u8, n: u8| {
        savings_inputs(encode_word(amount), encode_word(weeks), &vec![[c; 32]], &vec![[n; 32]])
    };
    let claim = one(5, 1, 2, 3);
    for other in [one(6, 1, 2, 3), one(5, 2, 2, 3), one(5, 1, 4, 3), one(5, 1, 2, 4)] {
        assert_ne!(claim, other);
    }
}

#[test]
fn pair_hash_is_sha256() {
    // SHA-256 of 64 zero bytes.
    let expected = [
        0xf5, 0xa5, 0xfd, 0x42, 0xd1, 0x6a, 0x20, 0x30, 0x27, 0x98, 0xef, 0x6e, 0xd3, 0x09, 0x97,
        0x9b, 0x43, 0x00, 0x3d, 0x23, 0x20, 0xd9, 0xf0, 0xe8, 0xea, 0x98, 0x31, 0xa9, 0x27, 0x59,
        0xfb, 0x4b,
    ];
    let env = Env::default();
    assert_eq!(hash_pair(&env, &[0; 32], &[0; 32]), expected);
    assert_ne!(hash_pair(&env, &[1; 32], &[2; 32]), hash_pair(&env, &[2; 32], &[1; 32]));
}

#[test]
fn insertion_fills_slots_and_ring() {
    let env = Env::default();
    let mut filled: soroban_sdk::Map<u32, BytesN<32>> = soroban_sdk::Map::new(&env);
    let mut roots: soroban_sdk::Map<u32, BytesN<32>> = soroban_sdk::Map::new(&env);
    let (root, next, slot) = insert(&env, [5; 32], &mut filled, &mut roots, 0, 0);
    assert_eq!((next, slot), (1, 1));
    assert_eq!(filled.len(), 20);
    assert_eq!(filled.get(0).unwrap().to_array(), [5; 32]);
    assert_eq!(roots.len(), 1);
    assert_eq!(roots.get(1).unwrap().to_array(), root);
    assert!(is_known_root(&roots, &root));
    assert!(!is_known_root(&roots, &[5; 32]));
    // The ring wraps around.
    let (root, next, slot) =
        insert(&env, [6; 32], &mut filled, &mut roots, 1, ROOT_HISTORY_SIZE - 1);
    assert_eq!((next, slot), (2, 0));
    assert_eq!(roots.get(0).unwrap().to_array(), root);
    assert_eq!(filled.get(0).unwrap().to_array(), [5; 32]);
}

#[test]
fn address_forms() {
    let env = Env::default();
    let account = Address::Account([9; 32]).to_xdr(&env);
    assert_eq!(&account[..12], &[0, 0, 0, 18, 0, 0, 0, 0, 0, 0, 0, 0]);
    assert_eq!(&account[12..], &[9; 32]);
    let contract = Address::Contract([9; 32]).to_xdr(&env);
    assert_eq!(&contract[..8], &[0, 0, 0, 18, 0, 0, 0, 1]);
    assert_eq!(&contract[8..], &[9; 32]);
    assert!(Address::Account([9; 32]).is(&Address::Account([9; 32])));
    assert!(!Address::Account([9; 32]).is(&Address::Contract([9; 32])));
    assert!(!Address::Account([9; 32]).is(&Address::Account([8; 32])));
}

#[test]
fn tables_hold_one_entry_per_key() {
    let mut table: Table<Address, u32> = Table::new();
    let a = Address::Account([1; 32]);
    let b = Address::Contract([1; 32]);
    assert!(!table.has(&a));
    assert_eq!(table.get(&a), None);
    table.set(a, 1);
    table.set(b, 2);
    table.set(a, 3);
    assert_eq!(table.get(&a), Some(&3));
    assert_eq!(table.get(&b), Some(&2));
    assert!(table.has(&b));
}
