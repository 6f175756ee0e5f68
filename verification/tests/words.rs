use ethrex_core::account::{empty_keccak_hash, empty_trie_hash};
use ethrex_core::table::{Duplicate, Table};
use ethrex_core::word::{
    address_to_word, push_be, read_be, word_to_address, Address, H256, U256,
};

fn address(n: u128) -> Address {
    Address { hi: 0, lo: n }
}

#[test]
fn big_endian_bytes_round_trip() {
    let mut out: Vec<u8> = Vec::new();
    push_be(&mut out, 0x0102_0304, 4);
    assert_eq!(out, vec![1, 2, 3, 4]);
    assert_eq!(read_be(&out, 0, 4), 0x0102_0304);
    assert_eq!(read_be(&out, 1, 2), 0x0203);
    assert_eq!(read_be(&out, 2, 0), 0);
}

#[test]
fn different_bytes_spell_different_numbers() {
    let a = U256::from_big_endian(&[7u8; 32]);
    let mut bytes = [7u8; 32];
    bytes[31] = 8;
    let b = U256::from_big_endian(&bytes);
    assert!(a != b);
    assert!(a.less_than(&b));
    assert!(!b.less_than(&a));
}

#[test]
fn word_arithmetic_carries_and_saturates() {
    let low = U256 { hi: 0, lo: u128::MAX };
    let one = U256::from_u64(1);
    assert_eq!(low.checked_add(one), Some(U256 { hi: 1, lo: 0 }));
    assert_eq!(U256 { hi: 1, lo: 0 }.checked_sub(one), Some(low));
    assert_eq!(U256 { hi: u128::MAX, lo: u128::MAX }.checked_add(one), None);
    assert_eq!(U256::zero().checked_sub(one), None);
    assert_eq!(U256::zero().saturating_sub(one), U256::zero());
    assert_eq!(low.checked_mul_u64(2), Some(U256 { hi: 1, lo: u128::MAX - 1 }));
    assert_eq!(U256 { hi: u128::MAX, lo: 0 }.checked_mul_u64(2), None);
    assert!(U256::zero().is_zero());
    assert!(!one.is_zero());
}

#[test]
fn words_become_machine_numbers_where_they_fit() {
    assert_eq!(U256::from_u64(u64::MAX).to_u64(), Some(u64::MAX));
    assert_eq!(U256 { hi: 0, lo: u64::MAX as u128 + 1 }.to_u64(), None);
    assert_eq!(U256 { hi: 1, lo: 0 }.to_u64(), None);
    assert_eq!(U256::from_usize(17).to_usize(), Some(17));
}

#[test]
fn addresses_round_trip_through_words() {
    let a = Address { hi: 0xdead_beef, lo: 42 };
    let w = address_to_word(a);
    assert_eq!(w, U256 { hi: 0xdead_beef, lo: 42 });
    assert_eq!(word_to_address(w), a);
    let dirty = U256 { hi: 0xffff_0000_dead_beef, lo: 42 };
    assert_eq!(word_to_address(dirty), a);
}

#[test]
fn hash_and_address_bytes() {
    let h = H256 { hi: 0x0102_0000_0000_0000_0000_0000_0000_0000, lo: 9 };
    let mut out: Vec<u8> = Vec::new();
    h.push_bytes(&mut out);
    assert_eq!(out.len(), 32);
    assert_eq!(out[0], 1);
    assert_eq!(out[1], 2);
    assert_eq!(out[31], 9);
    assert_eq!(H256::from_bytes(&out), h);
    assert_eq!(h.to_word(), U256 { hi: h.hi, lo: h.lo });
    let mut short: Vec<u8> = Vec::new();
    Address { hi: 1, lo: 2 }.push_bytes(&mut short);
    assert_eq!(short.len(), 20);
    assert_eq!(short[3], 1);
    assert_eq!(short[19], 2);
}

#[test]
fn first_nibble_and_order_of_hashes() {
    let h = H256 { hi: 0xa000_0000_0000_0000_0000_0000_0000_0000, lo: 0 };
    assert_eq!(h.first_nibble(), 0xa);
    assert_eq!(H256::zero().first_nibble(), 0);
    assert!(H256::zero().before(&h));
    assert!(!h.before(&h));
    assert!(H256 { hi: 1, lo: 1 }.before(&H256 { hi: 1, lo: 2 }));
}

#[test]
fn well_known_hashes() {
    let mut out: Vec<u8> = Vec::new();
    empty_keccak_hash().push_bytes(&mut out);
    assert_eq!(&out[0..4], &[0xc5, 0xd2, 0x46, 0x01]);
    let mut trie: Vec<u8> = Vec::new();
    empty_trie_hash().push_bytes(&mut trie);
    assert_eq!(&trie[0..4], &[0x56, 0xe8, 0x1f, 0x17]);
}

#[test]
fn table_keeps_one_value_for_each_key() {
    let mut t: Table<Address, u64> = Table::new();
    assert!(t.is_empty());
    t.insert(address(1), 10);
    t.insert(address(2), 20);
    t.insert(address(1), 11);
    assert_eq!(t.len(), 2);
    assert_eq!(t.get(address(1)), Some(&11));
    assert_eq!(t.get(address(2)), Some(&20));
    assert_eq!(t.get(address(3)), None);
    assert!(t.contains_key(address(2)));
    assert_eq!(t.keys().len(), 2);
    assert_eq!(t.key_list().len(), 2);
}

#[test]
fn table_removes_and_changes_in_place() {
    let mut t: Table<u64, u64> = Table::with_capacity(4);
    for k in 0..10u64 {
        t.insert(k, k * k);
    }
    assert_eq!(t.remove(3), Some(9));
    assert_eq!(t.remove(3), None);
    assert_eq!(t.len(), 9);
    assert_eq!(t.get(9), Some(&81));
    if let Some(v) = t.get_mut(4) {
        *v = 5;
    }
    assert_eq!(t.get(4), Some(&5));
    assert!(t.get_mut(3).is_none());
    t.clear();
    assert!(t.is_empty());
    assert_eq!(t.get(4), None);
}

#[test]
fn table_extends_over_the_same_keys() {
    let mut a: Table<H256, u64> = Table::new();
    a.insert(H256 { hi: 0, lo: 1 }, 1);
    a.insert(H256 { hi: 0, lo: 2 }, 2);
    let mut b = a.duplicate();
    b.insert(H256 { hi: 0, lo: 2 }, 22);
    b.insert(H256 { hi: 0, lo: 3 }, 33);
    assert_eq!(a.get(H256 { hi: 0, lo: 2 }), Some(&2));
    a.extend_from(&b);
    assert_eq!(a.len(), 3);
    assert_eq!(a.get(H256 { hi: 0, lo: 1 }), Some(&1));
    assert_eq!(a.get(H256 { hi: 0, lo: 2 }), Some(&22));
    assert_eq!(a.get(H256 { hi: 0, lo: 3 }), Some(&33));
}

#[test]
fn hashes_and_addresses_have_texts() {
    let hash = H256 { hi: 0x1234 << 112, lo: 0xabcd };
    assert_eq!(hash.short_text(), "0x1234…abcd");
    assert_eq!(hash.long_text(), format!("0x1234{:060x}", 0xabcd));
    let address = Address { hi: 0xfedc_0000, lo: 0x5 };
    assert_eq!(address.short_text(), "0xfedc…0005");
    assert_eq!(address.long_text(), format!("0xfedc0000{:032x}", 5));
}
