//! Fixed-size words: the 256-bit unsigned integers of the virtual machine,
//! 32-byte hashes and 20-byte account addresses.
//!
//! A hash or an address is held as the number that its bytes spell, most
//! significant byte first. [`be_value`] relates such numbers to byte strings.

use crate::table::TableKey;
use vstd::prelude::*;

verus! {

/// 2^128.
pub open spec fn two_128() -> int {
    0x1_0000_0000_0000_0000_0000_0000_0000_0000int
}

/// 2^256.
pub open spec fn two_256() -> int {
    0x1_0000_0000_0000_0000_0000_0000_0000_0000_0000_0000_0000_0000_0000_0000_0000_0000int
}

/// The number that a byte string spells, most significant byte first.
pub open spec fn be_value(bytes: Seq<u8>) -> nat
    decreases bytes.len(),
{
    if bytes.len() == 0 {
        0
    } else {
        be_value(bytes.drop_last()) * 256 + bytes.last() as nat
    }
}

/// 256^n.
pub open spec fn pow256(n: nat) -> nat
    decreases n,
{
    if n == 0 {
        1
    } else {
        pow256((n - 1) as nat) * 256
    }
}

/// `n` bytes spell a number below 256^n.
pub proof fn lemma_be_value_bound(bytes: Seq<u8>)
    ensures
        be_value(bytes) < pow256(bytes.len()),
    decreases bytes.len(),
{
    if bytes.len() > 0 {
        lemma_be_value_bound(bytes.drop_last());
    }
}

/// Two byte strings of one length that spell the same number are equal.
pub proof fn law_be_value_injective(a: Seq<u8>, b: Seq<u8>)
    requires
        a.len() == b.len(),
        be_value(a) == be_value(b),
    ensures
        a == b,
    decreases a.len(),
{
    if a.len() > 0 {
        let x = be_value(a.drop_last());
        let y = be_value(b.drop_last());
        assert(x * 256 + a.last() == y * 256 + b.last());
        assert(x == y && a.last() == b.last());
        law_be_value_injective(a.drop_last(), b.drop_last());
        assert(a =~= a.drop_last().push(a.last()));
        assert(b =~= b.drop_last().push(b.last()));
    } else {
        assert(a =~= b);
    }
}

/// The number spelled by two byte strings, one after the other.
proof fn lemma_be_value_concat(a: Seq<u8>, b: Seq<u8>)
    ensures
        be_value(a + b) == be_value(a) * pow256(b.len()) + be_value(b),
    decreases b.len(),
{
    if b.len() == 0 {
        assert(a + b =~= a);
        assert(pow256(b.len()) == 1);
        assert(be_value(b) == 0);
        assert(be_value(a) * 1 == be_value(a));
    } else {
        assert((a + b).last() == b.last());
        assert(pow256(b.len()) == pow256((b.len() - 1) as nat) * 256);
        lemma_be_value_concat(a, b.drop_last());
        assert((a + b).drop_last() =~= a + b.drop_last());
        let v = be_value(a);
        let p = pow256((b.len() - 1) as nat);
        assert(v * p * 256 == v * (p * 256)) by (nonlinear_arith);
        assert((v * p + be_value(b.drop_last())) * 256 == v * p * 256 + be_value(b.drop_last())
            * 256) by (nonlinear_arith);
    }
}

pub proof fn lemma_pow256_values()
    ensures
        pow256(4) == 0x1_0000_0000,
        pow256(8) == 0x1_0000_0000_0000_0000,
        pow256(16) == two_128(),
{
    reveal_with_fuel(pow256, 17);
}

proof fn lemma_pow256_monotone(a: nat, b: nat)
    requires
        a <= b,
    ensures
        pow256(a) <= pow256(b),
    decreases b,
{
    if a < b {
        lemma_pow256_monotone(a, (b - 1) as nat);
    }
}

/// The number that the `count` bytes of `bytes` from `start` on spell.
pub fn read_be(bytes: &[u8], start: usize, count: usize) -> (value: u128)
    requires
        count <= 16,
        start + count <= bytes@.len(),
    ensures
        value as nat == be_value(bytes@.subrange(start as int, start + count)),
{
    let len: usize = bytes.len();
    let mut value: u128 = 0;
    let mut i: usize = 0;
    while i < count
        invariant
            i <= count <= 16,
            len == bytes@.len(),
            start + count <= bytes@.len(),
            value as nat == be_value(bytes@.subrange(start as int, start + i)),
            value < pow256(i as nat),
        decreases count - i,
    {
        proof {
            lemma_pow256_values();
            lemma_pow256_monotone((i + 1) as nat, 16);
            let next = bytes@.subrange(start as int, start + i + 1);
            assert(next.drop_last() =~= bytes@.subrange(start as int, start + i));
            lemma_be_value_bound(next);
        }
        value = value * 256 + bytes[start + i] as u128;
        i += 1;
    }
    value
}

/// The low `count` bytes of a number, most significant byte first.
pub open spec fn be_bytes(value: nat, count: nat) -> Seq<u8>
    decreases count,
{
    if count == 0 {
        Seq::empty()
    } else {
        be_bytes(value / 256, (count - 1) as nat).push((value % 256) as u8)
    }
}

/// The bytes of a number that fits into them spell it.
pub proof fn law_bytes_spell_their_number(value: nat, count: nat)
    ensures
        be_bytes(value, count).len() == count,
        value < pow256(count) ==> be_value(be_bytes(value, count)) == value,
    decreases count,
{
    if count > 0 {
        law_bytes_spell_their_number(value / 256, (count - 1) as nat);
        let bytes = be_bytes(value, count);
        assert(bytes.drop_last() =~= be_bytes(value / 256, (count - 1) as nat));
    }
}

/// Appends the low `count` bytes of `value`, most significant byte first.
pub fn push_be(out: &mut Vec<u8>, value: u128, count: usize)
    ensures
        final(out)@ == old(out)@ + be_bytes(value as nat, count as nat),
    decreases count,
{
    if count > 0 {
        push_be(out, value / 256, count - 1);
        out.push((value % 256) as u8);
    }
    assert(out@ =~= old(out)@ + be_bytes(value as nat, count as nat));
}

/// The product of two 64-bit limbs leaves room for a 64-bit carry.
proof fn lemma_limb_product(x: int, k: int)
    requires
        0 <= x < 0x1_0000_0000_0000_0000,
        0 <= k < 0x1_0000_0000_0000_0000,
    ensures
        0 <= x * k,
        x * k + 0xffff_ffff_ffff_ffff < two_128(),
{
    assert(0 <= x * k <= 0xffff_ffff_ffff_ffff * 0xffff_ffff_ffff_ffff) by (nonlinear_arith)
        requires
            0 <= x <= 0xffff_ffff_ffff_ffff,
            0 <= k <= 0xffff_ffff_ffff_ffff,
    ;
}

/// A 256-bit unsigned integer: `hi * 2^128 + lo`.
#[derive(Copy, Clone, PartialEq, Eq, Structural, Debug)]
pub struct U256 {
    pub hi: u128,
    pub lo: u128,
}

impl View for U256 {
    type V = nat;

    open spec fn view(&self) -> nat {
        (self.hi * two_128() + self.lo) as nat
    }
}

/// The word that holds `n`, for `n` below 2^256.
pub open spec fn word_of(n: int) -> U256 {
    U256 { hi: (n / two_128()) as u128, lo: (n % two_128()) as u128 }
}

/// Every value below 2^256 has exactly one word.
pub proof fn lemma_word_of(n: int)
    requires
        0 <= n < two_256(),
    ensures
        word_of(n)@ == n,
{
}

/// A word is determined by its value.
pub proof fn lemma_word_ext(a: U256, b: U256)
    requires
        a@ == b@,
    ensures
        a == b,
{
}

/// A word's value is below 2^256.
pub proof fn lemma_word_bound(a: U256)
    ensures
        a@ < two_256(),
{
}

impl U256 {
    pub fn zero() -> (w: U256)
        ensures
            w@ == 0,
            w == (U256 { hi: 0, lo: 0 }),
    {
        U256 { hi: 0, lo: 0 }
    }

    pub fn from_u64(x: u64) -> (w: U256)
        ensures
            w@ == x,
            w == (U256 { hi: 0, lo: x as u128 }),
    {
        U256 { hi: 0, lo: x as u128 }
    }

    pub fn from_usize(x: usize) -> (w: U256)
        ensures
            w@ == x,
            w == (U256 { hi: 0, lo: x as u128 }),
    {
        U256 { hi: 0, lo: x as u128 }
    }

    pub fn is_zero(&self) -> (b: bool)
        ensures
            b == (self@ == 0),
    {
        self.hi == 0 && self.lo == 0
    }

    /// Whether `self` is below `other`.
    pub fn less_than(&self, other: &U256) -> (b: bool)
        ensures
            b == (self@ < other@),
    {
        self.hi < other.hi || (self.hi == other.hi && self.lo < other.lo)
    }

    /// The sum, unless it reaches 2^256.
    pub fn checked_add(self, other: U256) -> (sum: Option<U256>)
        ensures
            match sum {
                Some(w) => w@ == self@ + other@,
                None => self@ + other@ >= two_256(),
            },
    {
        let carry: bool = self.lo > u128::MAX - other.lo;
        let lo: u128 = if carry {
            self.lo - (u128::MAX - other.lo) - 1
        } else {
            self.lo + other.lo
        };
        if self.hi > u128::MAX - other.hi {
            return None;
        }
        let hi: u128 = self.hi + other.hi;
        if carry && hi == u128::MAX {
            return None;
        }
        Some(U256 { hi: if carry { hi + 1 } else { hi }, lo })
    }

    /// The difference, unless it is negative.
    pub fn checked_sub(self, other: U256) -> (difference: Option<U256>)
        ensures
            match difference {
                Some(w) => w@ == self@ - other@,
                None => self@ < other@,
            },
    {
        if self.less_than(&other) {
            return None;
        }
        if self.lo >= other.lo {
            Some(U256 { hi: self.hi - other.hi, lo: self.lo - other.lo })
        } else {
            Some(U256 { hi: self.hi - other.hi - 1, lo: u128::MAX - other.lo + self.lo + 1 })
        }
    }

    /// The difference, or zero where it is negative.
    pub fn saturating_sub(self, other: U256) -> (difference: U256)
        ensures
            difference@ == if self@ < other@ {
                0
            } else {
                self@ - other@
            },
    {
        match self.checked_sub(other) {
            Some(w) => w,
            None => U256::zero(),
        }
    }

    /// The product with a 64-bit factor, unless it reaches 2^256.
    pub fn checked_mul_u64(self, factor: u64) -> (product: Option<U256>)
        ensures
            match product {
                Some(w) => w@ == self@ * factor,
                None => self@ * factor >= two_256(),
            },
    {
        let base: u128 = 0x1_0000_0000_0000_0000;
        let k: u128 = factor as u128;
        let l0: u128 = self.lo % base;
        let l1: u128 = self.lo / base;
        let h0: u128 = self.hi % base;
        let h1: u128 = self.hi / base;
        proof {
            lemma_limb_product(l0 as int, k as int);
            lemma_limb_product(l1 as int, k as int);
            lemma_limb_product(h0 as int, k as int);
            lemma_limb_product(h1 as int, k as int);
        }
        let p0: u128 = l0 * k;
        let p1: u128 = l1 * k + p0 / base;
        let p2: u128 = h0 * k + p1 / base;
        let p3: u128 = h1 * k + p2 / base;
        proof {
            let b = base as int;
            let kk = k as int;
            let v = self@ as int;
            assert(self.lo == l1 * b + l0);
            assert(self.hi == h1 * b + h0);
            assert(b * b == two_128());
            assert(v == ((h1 * b + h0) * b + l1) * b + l0) by (nonlinear_arith)
                requires
                    v == (h1 * b + h0) * (b * b) + (l1 * b + l0),
            ;
            assert(v * kk == ((h1 * kk * b + h0 * kk) * b + l1 * kk) * b + l0 * kk)
                by (nonlinear_arith)
                requires
                    v == ((h1 * b + h0) * b + l1) * b + l0,
            ;
            let q0 = p0 as int / b;
            let q1 = p1 as int / b;
            let q2 = p2 as int / b;
            assert(((h1 * kk * b + h0 * kk) * b + l1 * kk) * b + l0 * kk == (((h1 * kk + q2) * b
                + (p2 - q2 * b)) * b + (p1 - q1 * b)) * b + (p0 - q0 * b)) by (nonlinear_arith)
                requires
                    p0 == l0 * kk,
                    p1 == l1 * kk + q0,
                    p2 == h0 * kk + q1,
            ;
            let r0 = p0 as int % b;
            let r1 = p1 as int % b;
            let r2 = p2 as int % b;
            assert(p0 - q0 * b == r0 && p1 - q1 * b == r1 && p2 - q2 * b == r2);
            assert(v * kk == ((p3 * b + r2) * b + r1) * b + r0);
            assert(((p3 * b + r2) * b + r1) * b + r0 == (p3 * b + r2) * (b * b) + (r1 * b + r0))
                by (nonlinear_arith);
            assert(p3 >= b ==> (p3 * b + r2) * (b * b) >= (b * b) * (b * b)) by (nonlinear_arith)
                requires
                    r2 >= 0,
                    b > 0,
            ;
            assert((b * b) * (b * b) == two_256());
        }
        if p3 >= base {
            None
        } else {
            Some(U256 { hi: p3 * base + p2 % base, lo: (p1 % base) * base + p0 % base })
        }
    }

    /// The value as a 64-bit integer, where it fits.
    pub fn to_u64(self) -> (x: Option<u64>)
        ensures
            match x {
                Some(n) => n == self@,
                None => self@ > u64::MAX,
            },
    {
        if self.hi == 0 && self.lo <= u64::MAX as u128 {
            Some(self.lo as u64)
        } else {
            None
        }
    }

    /// The value as a machine-sized integer, where it fits.
    pub fn to_usize(self) -> (x: Option<usize>)
        ensures
            match x {
                Some(n) => n == self@,
                None => self@ > usize::MAX,
            },
    {
        if self.hi == 0 && self.lo <= usize::MAX as u128 {
            Some(self.lo as usize)
        } else {
            None
        }
    }

    /// The word that 32 bytes spell, most significant byte first.
    pub fn from_big_endian(bytes: &[u8]) -> (w: U256)
        requires
            bytes@.len() == 32,
        ensures
            w@ == be_value(bytes@),
    {
        let hi: u128 = read_be(bytes, 0, 16);
        let lo: u128 = read_be(bytes, 16, 16);
        proof {
            let a = bytes@.subrange(0, 16);
            let b = bytes@.subrange(16, 32);
            assert(bytes@ =~= a + b);
            lemma_be_value_concat(a, b);
            lemma_pow256_values();
        }
        U256 { hi, lo }
    }
}

/// A 32-byte hash, held as the number that its bytes spell.
#[derive(Copy, Clone, PartialEq, Eq, Structural, Debug)]
pub struct H256 {
    pub hi: u128,
    pub lo: u128,
}

impl View for H256 {
    type V = nat;

    open spec fn view(&self) -> nat {
        (self.hi * two_128() + self.lo) as nat
    }
}

impl H256 {
    pub fn zero() -> (h: H256)
        ensures
            h == (H256 { hi: 0, lo: 0 }),
    {
        H256 { hi: 0, lo: 0 }
    }

    /// The hash that 32 bytes make up.
    pub fn from_bytes(bytes: &[u8]) -> (h: H256)
        requires
            bytes@.len() == 32,
        ensures
            h@ == be_value(bytes@),
    {
        let w = U256::from_big_endian(bytes);
        H256 { hi: w.hi, lo: w.lo }
    }

    /// The 32 bytes of the hash.
    pub open spec fn bytes(self) -> Seq<u8> {
        be_bytes(self.hi as nat, 16) + be_bytes(self.lo as nat, 16)
    }

    /// Appends the 32 bytes of the hash.
    pub fn push_bytes(&self, out: &mut Vec<u8>)
        ensures
            final(out)@ == old(out)@ + self.bytes(),
    {
        push_be(out, self.hi, 16);
        push_be(out, self.lo, 16);
        assert(out@ =~= old(out)@ + self.bytes());
    }

    /// The hash read as a word of the virtual machine.
    pub fn to_word(&self) -> (w: U256)
        ensures
            w@ == self@,
            w == (U256 { hi: self.hi, lo: self.lo }),
    {
        U256 { hi: self.hi, lo: self.lo }
    }

    /// The leading four bits, which pick one of sixteen shards.
    pub fn first_nibble(&self) -> (nibble: u8)
        ensures
            nibble == self.nibble(),
            nibble < 16,
    {
        let hi: u128 = self.hi;
        assert(hi >> 124 < 16) by (bit_vector);
        assert(hi >> 124 == hi / 0x1000_0000_0000_0000_0000_0000_0000_0000) by (bit_vector);
        (self.hi >> 124) as u8
    }

    /// The leading four bits of the hash.
    pub open spec fn nibble(&self) -> int {
        self.hi as int / 0x1000_0000_0000_0000_0000_0000_0000_0000
    }

    /// Whether `self` comes before `other` when their bytes are compared.
    pub fn before(&self, other: &H256) -> (b: bool)
        ensures
            b == (self@ < other@),
    {
        self.hi < other.hi || (self.hi == other.hi && self.lo < other.lo)
    }
}

/// A 20-byte account address, held as the number that its bytes spell.
#[derive(Copy, Clone, PartialEq, Eq, Structural, Debug)]
pub struct Address {
    pub hi: u32,
    pub lo: u128,
}

impl View for Address {
    type V = nat;

    open spec fn view(&self) -> nat {
        (self.hi * two_128() + self.lo) as nat
    }
}

/// The word whose value is that of the address.
pub open spec fn address_word(address: Address) -> U256 {
    U256 { hi: address.hi as u128, lo: address.lo }
}

/// The address made of the low 160 bits of a word.
pub open spec fn word_address(word: U256) -> Address {
    Address { hi: (word.hi % 0x1_0000_0000) as u32, lo: word.lo }
}

/// The word of an address, its upper 96 bits zero.
pub fn address_to_word(address: Address) -> (w: U256)
    ensures
        w == address_word(address),
        w@ == address@,
{
    U256 { hi: address.hi as u128, lo: address.lo }
}

/// The address in the low 160 bits of a word.
pub fn word_to_address(word: U256) -> (address: Address)
    ensures
        address == word_address(word),
{
    Address { hi: (word.hi % 0x1_0000_0000) as u32, lo: word.lo }
}

/// An address survives the way into a word and back.
pub proof fn law_address_word_round_trip(address: Address)
    ensures
        word_address(address_word(address)) == address,
{
}

impl Address {
    /// The 20 bytes of the address.
    pub open spec fn bytes(self) -> Seq<u8> {
        be_bytes(self.hi as nat, 4) + be_bytes(self.lo as nat, 16)
    }

    /// Appends the 20 bytes of the address.
    pub fn push_bytes(&self, out: &mut Vec<u8>)
        ensures
            final(out)@ == old(out)@ + self.bytes(),
    {
        push_be(out, self.hi as u128, 4);
        push_be(out, self.lo, 16);
        assert(out@ =~= old(out)@ + self.bytes());
    }
}

/// The bytes of a hash spell it, and those of an address spell it.
pub proof fn law_hash_and_address_bytes(hash: H256, address: Address)
    ensures
        hash.bytes().len() == 32,
        be_value(hash.bytes()) == hash@,
        address.bytes().len() == 20,
        be_value(address.bytes()) == address@,
{
    lemma_pow256_values();
    law_bytes_spell_their_number(hash.hi as nat, 16);
    law_bytes_spell_their_number(hash.lo as nat, 16);
    lemma_be_value_concat(be_bytes(hash.hi as nat, 16), be_bytes(hash.lo as nat, 16));
    law_bytes_spell_their_number(address.hi as nat, 4);
    law_bytes_spell_their_number(address.lo as nat, 16);
    lemma_be_value_concat(be_bytes(address.hi as nat, 4), be_bytes(address.lo as nat, 16));
}

impl TableKey for H256 {
    open spec fn code(self) -> (u128, u128) {
        (self.hi, self.lo)
    }

    fn encode(self) -> (c: (u128, u128)) {
        (self.hi, self.lo)
    }

    proof fn code_injective(a: Self, b: Self) {
    }
}

impl TableKey for Address {
    open spec fn code(self) -> (u128, u128) {
        (self.hi as u128, self.lo)
    }

    fn encode(self) -> (c: (u128, u128)) {
        (self.hi as u128, self.lo)
    }

    proof fn code_injective(a: Self, b: Self) {
    }
}

} // verus!
