//! How numbers, hashes and addresses are written, and how logs are gathered.

use crate::backup::no_backup;
use crate::block::{all_logs, logs_view, Receipt};
use crate::blockchain::admission::missing_code_text;
use crate::chain_error::{contains_text, decimal, digit, stands_at};
use crate::error::ErrorView;
use crate::hex::{hex, hex_digit, long_form, short_form};
use crate::payload::context::{no_bundle_text, overflow_text, ContextView, ExecutionReport};
use crate::transaction::Transaction;
use crate::transitions::{obstacle_text, Obstacle};
use crate::word::{Address, H256};
use vstd::prelude::*;

verus! {

/// The value of a decimal digit.
pub open spec fn digit_value(c: char) -> int {
    if c == '0' {
        0
    } else if c == '1' {
        1
    } else if c == '2' {
        2
    } else if c == '3' {
        3
    } else if c == '4' {
        4
    } else if c == '5' {
        5
    } else if c == '6' {
        6
    } else if c == '7' {
        7
    } else if c == '8' {
        8
    } else if c == '9' {
        9
    } else {
        -1
    }
}

/// The number that decimal digits spell.
pub open spec fn spelled(text: Seq<char>) -> int
    decreases text.len(),
{
    if text.len() == 0 {
        0
    } else {
        spelled(text.drop_last()) * 10 + digit_value(text.last())
    }
}

proof fn lemma_digits()
    ensures
        forall|d: int| 0 <= d < 10 ==> digit_value(#[trigger] digit(d)) == d,
{
    assert(digit(0) == '0');
    assert(digit(1) == '1');
    assert(digit(2) == '2');
    assert(digit(3) == '3');
    assert(digit(4) == '4');
    assert(digit(5) == '5');
    assert(digit(6) == '6');
    assert(digit(7) == '7');
    assert(digit(8) == '8');
    assert(digit(9) == '9');
    assert forall|d: int| 0 <= d < 10 implies digit_value(#[trigger] digit(d)) == d by {
        assert(d == 0 || d == 1 || d == 2 || d == 3 || d == 4 || d == 5 || d == 6 || d == 7 || d
            == 8 || d == 9);
    }
}

/// A number is written in decimal digits that spell it, without a zero in front.
pub proof fn law_decimal_spells_the_number(n: nat)
    ensures
        decimal(n).len() > 0,
        spelled(decimal(n)) == n,
        n >= 10 ==> decimal(n)[0] != '0',
        forall|i: int| 0 <= i < decimal(n).len() ==> digit_value(#[trigger] decimal(n)[i]) >= 0,
    decreases n,
{
    lemma_digits();
    let text = decimal(n);
    if n < 10 {
        assert(text.drop_last() =~= Seq::empty());
        assert(spelled(text.drop_last()) == 0);
        assert(text.last() == digit(n as int));
    } else {
        law_decimal_spells_the_number(n / 10);
        let front = decimal(n / 10);
        assert(text.drop_last() =~= front);
        assert(text.last() == digit((n % 10) as int));
        assert(text[0] == front[0]);
        if n / 10 < 10 {
            assert(front[0] == digit((n / 10) as int));
            assert(digit_value(front[0]) == n / 10);
        }
        assert forall|i: int| 0 <= i < text.len() implies digit_value(#[trigger] text[i]) >= 0 by {
            if i < front.len() {
                assert(text[i] == front[i]);
            }
        }
    }
}

/// The sixteen hexadecimal digits.
pub proof fn law_hexadecimal_digits()
    ensures
        hex_digit(0) == '0' && hex_digit(1) == '1' && hex_digit(2) == '2' && hex_digit(3) == '3',
        hex_digit(4) == '4' && hex_digit(5) == '5' && hex_digit(6) == '6' && hex_digit(7) == '7',
        hex_digit(8) == '8' && hex_digit(9) == '9' && hex_digit(10) == 'a' && hex_digit(11) == 'b',
        hex_digit(12) == 'c' && hex_digit(13) == 'd' && hex_digit(14) == 'e' && hex_digit(15)
            == 'f',
{
}

/// Bytes are written with two digits each, the upper half first, in their order.
pub proof fn law_hex_writes_every_byte(bytes: Seq<u8>, i: int)
    requires
        0 <= i < bytes.len(),
    ensures
        hex(bytes).len() == 2 * bytes.len(),
        hex(bytes)[2 * i] == hex_digit(bytes[i] as int / 16),
        hex(bytes)[2 * i + 1] == hex_digit(bytes[i] as int % 16),
    decreases bytes.len(),
{
    let rest = bytes.drop_last();
    lemma_hex_len(rest);
    if i < rest.len() {
        law_hex_writes_every_byte(rest, i);
        assert(rest[i] == bytes[i]);
    }
}

proof fn lemma_hex_len(bytes: Seq<u8>)
    ensures
        hex(bytes).len() == 2 * bytes.len(),
    decreases bytes.len(),
{
    if bytes.len() > 0 {
        lemma_hex_len(bytes.drop_last());
    }
}

/// In full all bytes are written behind `0x`; in a sentence the first two, three dots and
/// the last two.
pub proof fn law_forms_of_bytes(bytes: Seq<u8>, i: int)
    requires
        bytes.len() >= 4,
        0 <= i < bytes.len(),
    ensures
        long_form(bytes).len() == 2 + 2 * bytes.len(),
        long_form(bytes)[0] == '0',
        long_form(bytes)[1] == 'x',
        long_form(bytes)[2 + 2 * i] == hex_digit(bytes[i] as int / 16),
        long_form(bytes)[3 + 2 * i] == hex_digit(bytes[i] as int % 16),
        short_form(bytes).len() == 11,
        short_form(bytes)[0] == '0',
        short_form(bytes)[1] == 'x',
        short_form(bytes)[6] == '…',
        i < 2 ==> short_form(bytes)[2 + 2 * i] == hex_digit(bytes[i] as int / 16)
            && short_form(bytes)[3 + 2 * i] == hex_digit(bytes[i] as int % 16),
        i >= bytes.len() - 2 ==> short_form(bytes)[7 + 2 * (i - (bytes.len() - 2))] == hex_digit(
            bytes[i] as int / 16,
        ) && short_form(bytes)[8 + 2 * (i - (bytes.len() - 2))] == hex_digit(
            bytes[i] as int % 16,
        ),
{
    reveal_strlit("0x");
    reveal_strlit("…");
    law_hex_writes_every_byte(bytes, i);
    lemma_hex_len(bytes.take(2));
    let end = bytes.skip(bytes.len() - 2);
    lemma_hex_len(end);
    if i < 2 {
        law_hex_writes_every_byte(bytes.take(2), i);
    }
    if i >= bytes.len() - 2 {
        law_hex_writes_every_byte(end, i - (bytes.len() - 2));
    }
}

/// A text holds another exactly where it can be cut so that the other stands in the middle.
pub proof fn law_text_in_a_text(before: Seq<char>, needle: Seq<char>, after: Seq<char>)
    ensures
        contains_text(before + needle + after, needle),
        forall|text: Seq<char>|
            needle.len() > text.len() ==> !#[trigger] contains_text(text, needle),
{
    let text = before + needle + after;
    let at = before.len() as int;
    assert(text.subrange(at, at + needle.len()) =~= needle);
    assert(stands_at(text, needle, at));
}

/// The log at position `j` of the receipt at position `i` stands among all logs behind
/// those of the receipts before it and the earlier ones of its own, unchanged.
pub proof fn law_logs_keep_their_order(receipts: Seq<Receipt>, i: int, j: int)
    requires
        0 <= i < receipts.len(),
        0 <= j < receipts[i].logs@.len(),
    ensures
        ({
            let at = all_logs(receipts.take(i)).len() + j;
            &&& at < all_logs(receipts).len()
            &&& all_logs(receipts)[at].address == receipts[i].logs@[j].address
            &&& all_logs(receipts)[at].topics == receipts[i].logs@[j].topics@
            &&& all_logs(receipts)[at].data == receipts[i].logs@[j].data@
        }),
    decreases receipts.len(),
{
    let rest = receipts.drop_last();
    if i < rest.len() {
        law_logs_keep_their_order(rest, i, j);
        assert(rest.take(i) =~= receipts.take(i));
        assert(rest[i] == receipts[i]);
    } else {
        assert(receipts.take(i) =~= rest);
        let own = logs_view(receipts[i].logs@);
        assert(all_logs(receipts) == all_logs(rest) + own);
    }
}

/// There are as many logs as the receipts have together.
pub proof fn law_logs_are_counted(receipts: Seq<Receipt>, receipt: Receipt)
    ensures
        all_logs(receipts.push(receipt)).len() == all_logs(receipts).len() + receipt.logs@.len(),
        all_logs(Seq::<Receipt>::empty()).len() == 0,
{
    assert(receipts.push(receipt).drop_last() =~= receipts);
}

/// What is said where a transition cannot be told names the account, and where it is asked
/// for, the slot, in full.
pub proof fn law_obstacles_in_words(address: Address, key: H256, detailed: bool)
    ensures
        obstacle_text(Obstacle::Baseline, address, key, detailed) == "Failed to get account "@
            + short_form(address.bytes()) + " from immutable cache"@,
        obstacle_text(Obstacle::NewCode, address, key, detailed)
            == "Failed to get code for account "@ + short_form(address.bytes()),
        obstacle_text(Obstacle::OldSlot, address, key, false)
            == "Failed to get old value from account's initial storage for address: "@
            + short_form(address.bytes()),
        obstacle_text(Obstacle::OldSlot, address, key, true)
            == "Failed to get old value from account's initial storage for address: "@
            + long_form(address.bytes()) + ". For key: "@ + long_form(key.bytes()),
{
}

/// A transaction that does not fit after all is told both sums of gas, the larger of them
/// and the limit of the block.
pub proof fn law_overflow_in_words(context: ContextView, report: ExecutionReport)
    requires
        report.state_gas_used <= report.gas_used,
        context.regular + report.gas_used <= u64::MAX,
        context.state + report.gas_used <= u64::MAX,
    ensures
        ({
            let regular = (context.regular + report.gas_used - report.state_gas_used) as nat;
            let state = (context.state + report.state_gas_used) as nat;
            overflow_text(context, report)
                == "block gas limit exceeded (state gas overflow): max("@ + decimal(regular)
                + ", "@ + decimal(state) + ") = "@ + decimal(
                if regular >= state {
                    regular
                } else {
                    state
                },
            ) + " > gas_limit "@ + decimal(context.payload.header.gas_limit as nat)
        }),
{
}

/// A transaction without its blobs, and a code that is missing, are named by their hashes.
pub proof fn law_missing_things_are_named(tx: Transaction, hash: H256)
    ensures
        no_bundle_text(tx) == "No blobs bundle found for blob tx "@ + short_form(tx.hash.bytes()),
        missing_code_text(hash) == "code missing for hash "@ + long_form(hash.bytes())
            + " despite present metadata"@,
        no_backup() == ErrorView::Custom(
            "Transaction backup not found. Was BackupHook enabled?"@,
        ),
{
}

} // verus!
