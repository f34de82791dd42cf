//! What numbers, bytes and texts are written and compared as.
use crate::digest::{hex, hex_of};
use crate::sanitize::{is_whitespace, to_lower};
use crate::text::{dec, decimal, sorts_before, text_before};
use vstd::prelude::*;

verus! {

/// The number that decimal digits stand for, each ten times the one behind it.
pub open spec fn read_decimal(text: Seq<char>) -> nat
    decreases text.len(),
{
    if text.len() == 0 {
        0
    } else {
        let c = text[text.len() - 1];
        10 * read_decimal(text.take(text.len() - 1)) + (if c >= '0' {
            (c as u32 - 48) as nat
        } else {
            0
        })
    }
}

proof fn lemma_decimal(n: nat)
    ensures
        dec(n).len() > 0,
        read_decimal(dec(n)) == n,
        forall|i: int| 0 <= i < dec(n).len() ==> '0' <= #[trigger] dec(n)[i] <= '9',
        n > 0 ==> dec(n)[0] != '0',
    decreases n,
{
    if n >= 10 {
        lemma_decimal(n / 10);
        assert(dec(n).take(dec(n).len() - 1) =~= dec(n / 10));
    } else {
        assert(dec(n).take(0) =~= Seq::<char>::empty());
        assert(read_decimal(dec(n).take(0)) == 0);
    }
}

/// A number is written in decimal digits that stand for it, and without leading zeros.
pub proof fn law_number_is_read_back(n: u128, text: String)
    requires
        call_ensures(decimal, (n,), text),
    ensures
        text@.len() > 0,
        forall|i: int| 0 <= i < text@.len() ==> '0' <= #[trigger] text@[i] <= '9',
        read_decimal(text@) == n,
        text@.len() > 1 ==> text@[0] != '0',
{
    lemma_decimal(n as nat);
}

/// What a hexadecimal digit in lower case stands for.
pub open spec fn digit_value(c: char) -> int {
    if '0' <= c && c <= '9' {
        c as u32 - 48
    } else if 'a' <= c && c <= 'f' {
        c as u32 - 87
    } else {
        -1
    }
}

proof fn lemma_hex_is_read_back(bytes: Seq<u8>, i: int)
    requires
        0 <= i < bytes.len(),
    ensures
        hex_of(bytes).len() == 2 * bytes.len(),
        0 <= digit_value(hex_of(bytes)[2 * i]) < 16,
        0 <= digit_value(hex_of(bytes)[2 * i + 1]) < 16,
        bytes[i] == 16 * digit_value(hex_of(bytes)[2 * i]) + digit_value(hex_of(bytes)[2 * i + 1]),
    decreases bytes.len(),
{
    let fewer = bytes.drop_last();
    if fewer.len() > 0 {
        lemma_hex_is_read_back(fewer, if i < fewer.len() { i } else { 0 });
    } else {
        assert(hex_of(fewer) =~= Seq::<char>::empty());
    }
    let last = bytes.last();
    assert(last / 16 < 16 && last == 16 * (last / 16) + last % 16);
}

/// A byte is written as two hexadecimal digits in lower case, the higher one first.
pub proof fn law_bytes_are_read_back(bytes: Vec<u8>, text: String, i: int)
    requires
        call_ensures(hex, (&bytes,), text),
        0 <= i < bytes@.len(),
    ensures
        text@.len() == 2 * bytes@.len(),
        digit_value(text@[2 * i]) >= 0,
        digit_value(text@[2 * i + 1]) >= 0,
        bytes@[i] == 16 * digit_value(text@[2 * i]) + digit_value(text@[2 * i + 1]),
{
    lemma_hex_is_read_back(bytes@, i);
}

proof fn lemma_first_difference(a: Seq<char>, b: Seq<char>, at: int)
    requires
        0 <= at <= a.len(),
        at <= b.len(),
        a.take(at) == b.take(at),
        at < a.len() && at < b.len() ==> a[at] != b[at],
    ensures
        text_before(a, b) <==> at < b.len() && (at == a.len() || (a[at] as int) < (b[at] as int)),
    decreases at,
{
    if at > 0 {
        assert(a[0] == a.take(at)[0] && b[0] == b.take(at)[0]);
        let (x, y) = (a.drop_first(), b.drop_first());
        assert(x.take(at - 1) =~= a.take(at).drop_first());
        assert(y.take(at - 1) =~= b.take(at).drop_first());
        lemma_first_difference(x, y, at - 1);
    }
}

/// The first place where two texts differ decides which comes first: the smaller character does,
/// and a text that ends there.
pub proof fn law_first_difference_decides(a: &str, b: &str, less: bool, at: int)
    requires
        call_ensures(sorts_before, (a, b), less),
        0 <= at <= a@.len(),
        at <= b@.len(),
        a@.take(at) == b@.take(at),
        at < a@.len() && at < b@.len() ==> a@[at] != b@[at],
    ensures
        less <==> at < b@.len() && (at == a@.len() || (a@[at] as int) < (b@[at] as int)),
{
    lemma_first_difference(a@, b@, at);
}

/// Of the ASCII characters, the space and those from the tab to the carriage return are white
/// space; every letter, digit and mark is none. Only ASCII letters have their case changed.
pub proof fn law_spaces_and_letters_are_told(c: char, space: bool, low: char)
    requires
        call_ensures(is_whitespace, (c,), space),
        call_ensures(to_lower, (c,), low),
    ensures
        c <= '\u{7f}' ==> (space <==> c == ' ' || ('\t' <= c && c <= '\r')),
        c == '\u{85}' || c == '\u{a0}' || c == '\u{3000}' ==> space,
        'A' <= c && c <= 'Z' ==> 'a' <= low && low <= 'z' && low as u32 - 'a' as u32 == c as u32
            - 'A' as u32,
        !('A' <= c && c <= 'Z') ==> low == c,
{
}

} // verus!
