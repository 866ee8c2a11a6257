//! Reading bitcoin addresses and lightning invoices.

use vstd::prelude::*;
use bitcoin::util::address::Address;
use lightning_invoice::Bolt11Invoice;
use crate::text::{chars_of, decimal_text};

verus! {

/// The message of the error that `bitcoin::util::address::Address::from_str`
/// returns for a text; nothing where it accepts the text.
pub uninterp spec fn address_error(text: Seq<char>) -> Option<Seq<char>>;

/// The payment hash of the invoice that
/// `lightning_invoice::Bolt11Invoice::from_str` reads from a text; nothing
/// where it returns an error.
pub uninterp spec fn invoice_hash(text: Seq<char>) -> Option<Seq<u8>>;

/// The number that the decimal digits at the end of a text stand for.
pub open spec fn trailing_number(text: Seq<char>) -> nat
    decreases text.len(),
{
    if text.len() > 0 && '0' <= text.last() <= '9' {
        10 * trailing_number(text.drop_last()) + (text.last() as nat - '0' as nat) as nat
    } else {
        0
    }
}

/// The part of an invoice before its data: what stands left of the last `1`.
pub open spec fn prefix_of(text: Seq<char>) -> Seq<char> {
    if text.contains('1') {
        text.take(text.index_of_last('1').unwrap())
    } else {
        Seq::empty()
    }
}

/// Whether the prefix of an invoice asks for so many whole bitcoin that their
/// number of picobitcoin exceeds 64 bits.
pub open spec fn amount_overflows(text: Seq<char>) -> bool {
    trailing_number(prefix_of(text)) * 1_000_000_000_000 > u64::MAX
}

/// The payment hash of an invoice that can be read. One for more bitcoin than
/// can be counted cannot.
pub open spec fn readable_hash(text: Seq<char>) -> Option<Seq<u8>> {
    if amount_overflows(text) {
        None
    } else {
        invoice_hash(text)
    }
}

/// Calls `bitcoin::util::address::Address::from_str`. Claimed: whether it
/// accepts a text, and the message of its error, depend on the text alone;
/// the name for both is `address_error`.
#[verifier::external_body]
pub(crate) fn check_address(text: &str) -> (res: Result<(), String>)
    ensures
        match res {
            Ok(()) => address_error(text@) is None,
            Err(message) => address_error(text@) == Some(message@),
        },
{
    match text.parse::<Address>() {
        Ok(_) => Ok(()),
        Err(err) => Err(err.to_string()),
    }
}

/// Calls `lightning_invoice::Bolt11Invoice::from_str` and takes the payment
/// hash of what it returns. Claimed: the outcome depends on the text alone;
/// the name for it is `invoice_hash`. An amount in whole bitcoin is
/// multiplied without a check, so one that overflows is left out.
#[verifier::external_body]
fn parse_invoice(text: &str) -> (res: Option<[u8; 32]>)
    requires
        !amount_overflows(text@),
    ensures
        match res {
            Some(hash) => invoice_hash(text@) == Some(hash@),
            None => invoice_hash(text@) is None,
        },
{
    match text.parse::<Bolt11Invoice>() {
        Ok(invoice) => Some(bitcoin::hashes::Hash::into_inner(*invoice.payment_hash())),
        Err(_) => None,
    }
}

/// The place of the last `1` in a text, or its length.
fn last_one(chars: &Vec<char>) -> (res: usize)
    ensures
        match chars@.contains('1') {
            true => Some(res as int) == chars@.index_of_last('1'),
            false => res == chars@.len(),
        },
        res <= chars@.len(),
{
    let mut i: usize = chars.len();
    while i > 0
        invariant
            i <= chars@.len(),
            forall|j: int| i <= j < chars@.len() ==> chars@[j] != '1',
        decreases i,
    {
        i = i - 1;
        if chars[i] == '1' {
            proof {
                assert(chars@.contains('1'));
                chars@.index_of_last_ensures('1');
            }
            return i;
        }
    }
    chars.len()
}

/// Whether the prefix of an invoice asks for so many whole bitcoin that their
/// number of picobitcoin exceeds 64 bits.
pub fn has_overflowing_amount(text: &str) -> (res: bool)
    ensures
        res == amount_overflows(text@),
{
    let chars = chars_of(text);
    let end = last_one(&chars);
    if end == chars.len() {
        proof {
            chars@.index_of_last_ensures('1');
        }
        return false;
    }
    let mut number: u64 = 0;
    let mut i: usize = 0;
    assert(chars@.take(0) == Seq::<char>::empty());
    while i < end
        invariant
            end <= chars.len(),
            i <= end,
            number <= 18_446_745,
            number < 18_446_745 ==> number == trailing_number(chars@.take(i as int)),
            number == 18_446_745 ==> trailing_number(chars@.take(i as int)) >= 18_446_745,
        decreases end - i,
    {
        let c = chars[i];
        assert(chars@.take(i + 1).drop_last() == chars@.take(i as int));
        assert(chars@.take(i + 1).last() == c);
        if c >= '0' && c <= '9' {
            number = 10 * number + (c as u32 - '0' as u32) as u64;
            if number > 18_446_745 {
                number = 18_446_745;
            }
        } else {
            number = 0;
        }
        i = i + 1;
    }
    proof {
        chars@.index_of_last_ensures('1');
    }
    number == 18_446_745
}

/// The payment hash of an invoice, if its text can be read.
pub fn payment_hash_of(text: &str) -> (res: Option<[u8; 32]>)
    ensures
        match res {
            Some(hash) => readable_hash(text@) == Some(hash@),
            None => readable_hash(text@) is None,
        },
{
    if has_overflowing_amount(text) {
        None
    } else {
        parse_invoice(text)
    }
}

/// A digit at the end of a text multiplies the number before it by ten and
/// adds itself; anything else ends the number.
pub proof fn law_trailing_number(text: Seq<char>, d: nat, c: char)
    requires
        d < 10,
        !"0123456789"@.contains(c),
    ensures
        trailing_number(Seq::empty()) == 0,
        trailing_number(text.push(c)) == 0,
        trailing_number(text.push("0123456789"@[d as int])) == 10 * trailing_number(text) + d,
{
    reveal_strlit("0123456789");
    let digits = "0123456789"@;
    assert(!('0' <= c <= '9')) by {
        if '0' <= c <= '9' {
            assert(digits[c as int - '0' as int] == c);
        }
    }
    assert(text.push(digits[d as int]).drop_last() == text);
}

/// A number after anything but a digit is the number at the end of the text.
pub proof fn law_number_at_end(front: Seq<char>, n: nat)
    requires
        front.len() == 0 || !"0123456789"@.contains(front.last()),
    ensures
        trailing_number(front + decimal_text(n)) == n,
    decreases n,
{
    reveal_strlit("0123456789");
    let digits = "0123456789"@;
    if front.len() > 0 && '0' <= front.last() <= '9' {
        assert(digits[front.last() as int - '0' as int] == front.last());
    }
    assert(trailing_number(front) == 0);
    let text = front + decimal_text(n);
    if n < 10 {
        assert(text.drop_last() == front);
    } else {
        law_number_at_end(front, n / 10);
        assert(text.drop_last() == front + decimal_text(n / 10));
    }
}

/// An invoice that names no amount, or one of whole bitcoin that 64 bits can
/// count as picobitcoin, is read as it stands; one that names more is not
/// read. The amount stands before the last `1`.
pub proof fn law_amounts(front: Seq<char>, n: nat, data: Seq<char>)
    requires
        !data.contains('1'),
        front.len() == 0 || !"0123456789"@.contains(front.last()),
    ensures
        readable_hash(data) == invoice_hash(data),
        readable_hash(front.push('1') + data) == invoice_hash(front.push('1') + data),
        n * 1_000_000_000_000 <= u64::MAX ==> readable_hash(
            (front + decimal_text(n)).push('1') + data,
        ) == invoice_hash((front + decimal_text(n)).push('1') + data),
        n * 1_000_000_000_000 > u64::MAX ==> readable_hash(
            (front + decimal_text(n)).push('1') + data,
        ) is None,
        n * 1_000_000_000_000 > u64::MAX <==> amount_overflows(
            (front + decimal_text(n)).push('1') + data,
        ),
{
    reveal_strlit("0123456789");
    let digits = "0123456789"@;
    if front.len() > 0 && '0' <= front.last() <= '9' {
        assert(digits[front.last() as int - '0' as int] == front.last());
    }
    assert(trailing_number(front) == 0);
    assert(trailing_number(Seq::<char>::empty()) == 0);
    law_number_at_end(front, n);
    lemma_prefix(front, data);
    lemma_prefix(front + decimal_text(n), data);
}

proof fn lemma_prefix(front: Seq<char>, data: Seq<char>)
    requires
        !data.contains('1'),
    ensures
        prefix_of(front.push('1') + data) == front,
{
    let text = front.push('1') + data;
    let at = front.len() as int;
    assert(text[at] == '1');
    text.index_of_last_ensures('1');
    let i = text.index_of_last('1').unwrap();
    if i > at {
        assert(data[i - at - 1] == '1');
    }
    assert(text.take(at) == front);
}

} // verus!
