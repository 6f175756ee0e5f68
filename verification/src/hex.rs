//! Hashes and addresses in hexadecimal digits.

use crate::word::{Address, H256};
use vstd::prelude::*;
use vstd::string::*;

verus! {

/// The character of a hexadecimal digit.
pub open spec fn hex_digit(d: int) -> char {
    if d < 10 {
        (48 + d) as char
    } else {
        (87 + d) as char
    }
}

/// The hexadecimal digits of bytes, two for each.
pub open spec fn hex(bytes: Seq<u8>) -> Seq<char>
    decreases bytes.len(),
{
    if bytes.len() == 0 {
        Seq::empty()
    } else {
        hex(bytes.drop_last()).push(hex_digit((bytes.last() / 16) as int)).push(
            hex_digit((bytes.last() % 16) as int),
        )
    }
}

/// All bytes in hexadecimal digits.
pub open spec fn long_form(bytes: Seq<u8>) -> Seq<char> {
    "0x"@ + hex(bytes)
}

/// The first two bytes and the last two in hexadecimal digits, which is how hashes and
/// addresses are shown where they stand in a sentence.
pub open spec fn short_form(bytes: Seq<u8>) -> Seq<char> {
    "0x"@ + hex(bytes.take(2)) + "…"@ + hex(bytes.skip(bytes.len() - 2))
}

fn digit_text(d: u8) -> (text: &'static str)
    requires
        d < 16,
    ensures
        text@ == seq![hex_digit(d as int)],
{
    proof {
        reveal_strlit("0");
        reveal_strlit("1");
        reveal_strlit("2");
        reveal_strlit("3");
        reveal_strlit("4");
        reveal_strlit("5");
        reveal_strlit("6");
        reveal_strlit("7");
        reveal_strlit("8");
        reveal_strlit("9");
        reveal_strlit("a");
        reveal_strlit("b");
        reveal_strlit("c");
        reveal_strlit("d");
        reveal_strlit("e");
        reveal_strlit("f");
    }
    let text = match d {
        0 => "0",
        1 => "1",
        2 => "2",
        3 => "3",
        4 => "4",
        5 => "5",
        6 => "6",
        7 => "7",
        8 => "8",
        9 => "9",
        10 => "a",
        11 => "b",
        12 => "c",
        13 => "d",
        14 => "e",
        _ => "f",
    };
    assert(text@ =~= seq![hex_digit(d as int)]);
    text
}

/// Puts the digits of the bytes from `start` to `end` behind a text.
fn append_hex(text: &mut String, bytes: &Vec<u8>, start: usize, end: usize)
    requires
        start <= end <= bytes@.len(),
    ensures
        final(text)@ == old(text)@ + hex(bytes@.subrange(start as int, end as int)),
{
    let mut i: usize = start;
    proof {
        assert(bytes@.subrange(start as int, start as int) =~= Seq::empty());
        assert(text@ =~= text@ + hex(Seq::empty()));
    }
    while i < end
        invariant
            start <= i <= end <= bytes@.len(),
            text@ == old(text)@ + hex(bytes@.subrange(start as int, i as int)),
        decreases end - i,
    {
        let ghost before = text@;
        text.append(digit_text(bytes[i] / 16));
        text.append(digit_text(bytes[i] % 16));
        i += 1;
        proof {
            let done = bytes@.subrange(start as int, i as int);
            assert(done.drop_last() =~= bytes@.subrange(start as int, i - 1));
            assert(done.last() == bytes@[i - 1]);
            assert(text@ =~= old(text)@ + hex(done));
        }
    }
}

fn long_text(bytes: &Vec<u8>) -> (text: String)
    ensures
        text@ == long_form(bytes@),
{
    let mut text = "0x".to_owned();
    append_hex(&mut text, bytes, 0, bytes.len());
    assert(bytes@.subrange(0, bytes@.len() as int) =~= bytes@);
    text
}

fn short_text(bytes: &Vec<u8>) -> (text: String)
    requires
        bytes@.len() >= 2,
    ensures
        text@ == short_form(bytes@),
{
    let n: usize = bytes.len();
    let mut text = "0x".to_owned();
    append_hex(&mut text, bytes, 0, 2);
    text.append("…");
    append_hex(&mut text, bytes, n - 2, n);
    assert(bytes@.subrange(0, 2) =~= bytes@.take(2));
    assert(bytes@.subrange(n - 2, n as int) =~= bytes@.skip(n - 2));
    text
}

impl H256 {
    /// The whole hash in hexadecimal digits.
    pub fn long_text(&self) -> (text: String)
        ensures
            text@ == long_form(self.bytes()),
    {
        let mut bytes: Vec<u8> = Vec::new();
        self.push_bytes(&mut bytes);
        assert(bytes@ =~= self.bytes());
        self::long_text(&bytes)
    }

    /// The hash as it is shown in a sentence.
    pub fn short_text(&self) -> (text: String)
        ensures
            text@ == short_form(self.bytes()),
    {
        let mut bytes: Vec<u8> = Vec::new();
        self.push_bytes(&mut bytes);
        proof {
            crate::word::law_hash_and_address_bytes(*self, Address { hi: 0, lo: 0 });
        }
        assert(bytes@ =~= self.bytes());
        self::short_text(&bytes)
    }
}

impl Address {
    /// The whole address in hexadecimal digits.
    pub fn long_text(&self) -> (text: String)
        ensures
            text@ == long_form(self.bytes()),
    {
        let mut bytes: Vec<u8> = Vec::new();
        self.push_bytes(&mut bytes);
        assert(bytes@ =~= self.bytes());
        self::long_text(&bytes)
    }

    /// The address as it is shown in a sentence.
    pub fn short_text(&self) -> (text: String)
        ensures
            text@ == short_form(self.bytes()),
    {
        let mut bytes: Vec<u8> = Vec::new();
        self.push_bytes(&mut bytes);
        proof {
            crate::word::law_hash_and_address_bytes(H256 { hi: 0, lo: 0 }, *self);
        }
        assert(bytes@ =~= self.bytes());
        self::short_text(&bytes)
    }
}

} // verus!
