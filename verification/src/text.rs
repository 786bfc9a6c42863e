//! Text the node writes into its answers: decimal and hexadecimal numbers and
//! byte strings, built onto a `String` piece by piece.

use vstd::prelude::*;

use crate::crypto::{hex_bytes, hex_digit, is_hex};

verus! {

/// The character that stands for the digit `d`.
pub open spec fn digit(d: int) -> char {
    if d == 0 {
        '0'
    } else if d == 1 {
        '1'
    } else if d == 2 {
        '2'
    } else if d == 3 {
        '3'
    } else if d == 4 {
        '4'
    } else if d == 5 {
        '5'
    } else if d == 6 {
        '6'
    } else if d == 7 {
        '7'
    } else if d == 8 {
        '8'
    } else if d == 9 {
        '9'
    } else if d == 10 {
        'a'
    } else if d == 11 {
        'b'
    } else if d == 12 {
        'c'
    } else if d == 13 {
        'd'
    } else if d == 14 {
        'e'
    } else {
        'f'
    }
}

/// `n` in decimal, without leading zeros.
pub open spec fn decimal(n: nat) -> Seq<char>
    decreases n,
{
    if n < 10 {
        seq![digit(n as int)]
    } else {
        decimal(n / 10).push(digit((n % 10) as int))
    }
}

/// `n` in decimal, with a minus sign where it is negative.
pub open spec fn signed_decimal(n: int) -> Seq<char> {
    if n < 0 {
        "-"@ + decimal((-n) as nat)
    } else {
        decimal(n as nat)
    }
}

/// The two lower-case hexadecimal digits of a byte.
pub open spec fn hex_pair(b: u8) -> Seq<char> {
    seq![digit(b as int / 16), digit(b as int % 16)]
}

/// `bytes` in lower-case hexadecimal, first byte first.
pub open spec fn lower_hex(bytes: Seq<u8>) -> Seq<char>
    decreases bytes.len(),
{
    if bytes.len() == 0 {
        Seq::empty()
    } else {
        lower_hex(bytes.drop_last()) + hex_pair(bytes.last())
    }
}

/// `n` as eight hexadecimal digits behind `0x`.
pub open spec fn hex_word(n: u32) -> Seq<char> {
    seq!['0', 'x'] + hex_pair((n / 0x100_0000) as u8) + hex_pair((n / 0x1_0000 % 0x100) as u8)
        + hex_pair((n / 0x100 % 0x100) as u8) + hex_pair((n % 0x100) as u8)
}

/// `n` in lower-case hexadecimal digits, without leading zeros.
pub open spec fn hex_digits(n: nat) -> Seq<char>
    decreases n,
{
    if n < 16 {
        seq![digit(n as int)]
    } else {
        hex_digits(n / 16).push(digit((n % 16) as int))
    }
}

/// `n` in hexadecimal behind `0x`.
pub open spec fn hex_plain(n: nat) -> Seq<char> {
    "0x"@ + hex_digits(n)
}

/// A transaction id as it is shown: its bytes in hexadecimal, last byte first.
pub open spec fn txid_text(txid: Seq<u8>) -> Seq<char> {
    lower_hex(txid.reverse())
}

fn push_digit(s: &mut String, d: u8)
    requires
        d < 16,
    ensures
        final(s)@ == old(s)@.push(digit(d as int)),
{
    let ghost before = s@;
    let c: &str = match d {
        0 => "0",
        1 => "1",
        2 => "2",
        3 => "3",
        4 => "4",
        5 => "5",
        6 => "6",
        7 => "7",
        8 => "8",
        9 => "9",
        10 => "a",
        11 => "b",
        12 => "c",
        13 => "d",
        14 => "e",
        _ => "f",
    };
    proof {
        reveal_strlit("0");
        reveal_strlit("1");
        reveal_strlit("2");
        reveal_strlit("3");
        reveal_strlit("4");
        reveal_strlit("5");
        reveal_strlit("6");
        reveal_strlit("7");
        reveal_strlit("8");
        reveal_strlit("9");
        reveal_strlit("a");
        reveal_strlit("b");
        reveal_strlit("c");
        reveal_strlit("d");
        reveal_strlit("e");
        reveal_strlit("f");
        assert(c@ =~= seq![digit(d as int)]);
        assert(before.push(digit(d as int)) =~= before + c@);
    }
    s.append(c);
}

/// Appends `n` in decimal.
pub fn push_decimal(s: &mut String, n: u64)
    ensures
        final(s)@ == old(s)@ + decimal(n as nat),
    decreases n,
{
    let ghost before = s@;
    if n < 10 {
        push_digit(s, n as u8);
        assert(before.push(digit(n as int)) =~= before + decimal(n as nat));
    } else {
        push_decimal(s, n / 10);
        push_digit(s, (n % 10) as u8);
        assert((before + decimal((n / 10) as nat)).push(digit((n % 10) as int)) =~= before
            + decimal(n as nat));
    }
}

/// Appends a 128-bit `n` in decimal.
pub fn push_decimal_wide(s: &mut String, n: u128)
    ensures
        final(s)@ == old(s)@ + decimal(n as nat),
    decreases n,
{
    let ghost before = s@;
    if n < 10 {
        push_digit(s, n as u8);
        assert(before.push(digit(n as int)) =~= before + decimal(n as nat));
    } else {
        push_decimal_wide(s, n / 10);
        push_digit(s, (n % 10) as u8);
        assert((before + decimal((n / 10) as nat)).push(digit((n % 10) as int)) =~= before
            + decimal(n as nat));
    }
}

/// Appends `n` in decimal, with a minus sign where it is negative.
pub fn push_signed_decimal(s: &mut String, n: i32)
    ensures
        final(s)@ == old(s)@ + signed_decimal(n as int),
{
    let ghost before = s@;
    if n < 0 {
        s.append("-");
        push_decimal(s, (-(n as i64)) as u64);
        assert(s@ =~= before + signed_decimal(n as int));
    } else {
        push_decimal(s, n as u64);
    }
}

fn push_hex_pair(s: &mut String, b: u8)
    ensures
        final(s)@ == old(s)@ + hex_pair(b),
{
    let ghost before = s@;
    push_digit(s, b / 16);
    push_digit(s, b % 16);
    assert(before.push(digit(b as int / 16)).push(digit(b as int % 16)) =~= before + hex_pair(b));
}

/// `bytes` in lower-case hexadecimal.
pub fn to_lower_hex(bytes: &[u8]) -> (text: String)
    ensures
        text@ == lower_hex(bytes@),
{
    let mut text = String::new();
    let mut i: usize = 0;
    while i < bytes.len()
        invariant
            i <= bytes.len(),
            text@ == lower_hex(bytes@.take(i as int)),
        decreases bytes.len() - i,
    {
        proof {
            assert(bytes@.take(i + 1).drop_last() =~= bytes@.take(i as int));
        }
        push_hex_pair(&mut text, bytes[i]);
        i += 1;
    }
    proof {
        assert(bytes@.take(i as int) =~= bytes@);
    }
    text
}

/// Appends `n` as eight hexadecimal digits behind `0x`.
pub fn push_hex_word(s: &mut String, n: u32)
    ensures
        final(s)@ == old(s)@ + hex_word(n),
{
    let ghost before = s@;
    s.append("0x");
    proof {
        reveal_strlit("0x");
        assert("0x"@ =~= seq!['0', 'x']);
    }
    push_hex_pair(s, (n / 0x100_0000) as u8);
    push_hex_pair(s, (n / 0x1_0000 % 0x100) as u8);
    push_hex_pair(s, (n / 0x100 % 0x100) as u8);
    push_hex_pair(s, (n % 0x100) as u8);
    assert(s@ =~= before + hex_word(n));
}

fn push_hex_digits(s: &mut String, n: u64)
    ensures
        final(s)@ == old(s)@ + hex_digits(n as nat),
    decreases n,
{
    let ghost before = s@;
    if n >= 16 {
        push_hex_digits(s, n / 16);
    }
    push_digit(s, (n % 16) as u8);
    assert(s@ =~= before + hex_digits(n as nat));
}

/// Appends a number in hexadecimal behind `0x`.
pub fn push_hex_plain(s: &mut String, n: u64)
    ensures
        final(s)@ == old(s)@ + hex_plain(n as nat),
{
    let ghost before = s@;
    s.append("0x");
    push_hex_digits(s, n);
    assert(s@ =~= before + hex_plain(n as nat));
}

/// Appends a transaction id the way it is shown.
pub fn push_txid(s: &mut String, txid: &[u8])
    ensures
        final(s)@ == old(s)@ + txid_text(txid@),
{
    let mut i: usize = txid.len();
    let mut reversed: Vec<u8> = Vec::new();
    while i > 0
        invariant
            i <= txid.len(),
            reversed.len() == txid.len() - i,
            forall|k: int|
                0 <= k < reversed.len() ==> reversed[k] == txid@[txid.len() - 1 - k],
        decreases i,
    {
        i -= 1;
        reversed.push(txid[i]);
    }
    assert(reversed@ =~= txid@.reverse());
    let hex = to_lower_hex(reversed.as_slice());
    s.append(hex.as_str());
}

/// A copy of `s`.
pub fn owned(s: &str) -> (text: String)
    ensures
        text@ == s@,
{
    s.to_owned()
}

/// Whether two texts hold the same characters.
pub fn same_text(a: &String, b: &String) -> (same: bool)
    ensures
        same == (a@ == b@),
{
    *a == *b
}

/// Whether two byte strings are equal.
pub fn same_bytes(a: &Vec<u8>, b: &Vec<u8>) -> (same: bool)
    ensures
        same == (a@ == b@),
{
    let same = *a == *b;
    proof {
        if same {
            assert(a@ =~= b@);
        }
    }
    same
}

/// A copy of a byte string.
pub fn copy_bytes(a: &Vec<u8>) -> (copy: Vec<u8>)
    ensures
        copy@ == a@,
{
    let mut copy: Vec<u8> = Vec::new();
    let mut i: usize = 0;
    while i < a.len()
        invariant
            i <= a.len(),
            copy@ == a@.take(i as int),
        decreases a.len() - i,
    {
        copy.push(a[i]);
        assert(a@.take(i + 1) =~= a@.take(i as int).push(a@[i as int]));
        i += 1;
    }
    assert(a@.take(i as int) =~= a@);
    copy
}

/// The number that `text` writes in the base `base`, its digits read by [`hex_digit`].
pub open spec fn number_of(text: Seq<char>, base: int) -> int
    decreases text.len(),
{
    if text.len() == 0 {
        0
    } else {
        number_of(text.drop_last(), base) * base + hex_digit(text.last())->0
    }
}

/// A number written in decimal reads back as itself, and starts with no zero but that of
/// zero.
pub proof fn decimal_reads_back(n: nat)
    ensures
        number_of(decimal(n), 10) == n,
        decimal(n).len() > 0,
        decimal(n)[0] == '0' ==> n == 0,
        forall|i: int|
            0 <= i < decimal(n).len() ==> '0' <= #[trigger] decimal(n)[i] && decimal(n)[i] <= '9',
    decreases n,
{
    if n >= 10 {
        decimal_reads_back(n / 10);
        assert(decimal(n).drop_last() =~= decimal(n / 10));
    } else {
        let text = decimal(n);
        assert(text.drop_last() =~= Seq::<char>::empty());
        assert(number_of(text.drop_last(), 10) == 0);
    }
}

/// Two different numbers are written differently, with a sign or without.
pub proof fn different_numbers_read_differently(a: int, b: int)
    requires
        signed_decimal(a) == signed_decimal(b),
    ensures
        a == b,
{
    reveal_strlit("-");
    decimal_reads_back(
        (if a < 0 {
            -a
        } else {
            a
        }) as nat,
    );
    decimal_reads_back(
        (if b < 0 {
            -b
        } else {
            b
        }) as nat,
    );
    if a < 0 && b < 0 {
        let x = decimal((-a) as nat);
        let y = decimal((-b) as nat);
        assert(signed_decimal(a).skip(1) =~= x);
        assert(signed_decimal(b).skip(1) =~= y);
    } else if a < 0 || b < 0 {
        assert(signed_decimal(a)[0] == signed_decimal(b)[0]);
    }
}

/// Hexadecimal digits of a number read back as the number.
pub proof fn hex_digits_read_back(n: nat)
    ensures
        number_of(hex_digits(n), 16) == n,
        hex_digits(n).len() > 0,
    decreases n,
{
    if n >= 16 {
        hex_digits_read_back(n / 16);
        assert(hex_digits(n).drop_last() =~= hex_digits(n / 16));
    } else {
        let text = hex_digits(n);
        assert(text.drop_last() =~= Seq::<char>::empty());
        assert(number_of(text.drop_last(), 16) == 0);
    }
}

/// Bytes written in hexadecimal read back as the same bytes, two digits for each, in lower
/// case.
pub proof fn hex_reads_back(bytes: Seq<u8>)
    ensures
        lower_hex(bytes).len() == 2 * bytes.len(),
        is_hex(lower_hex(bytes)),
        hex_bytes(lower_hex(bytes)) == bytes,
        forall|i: int|
            0 <= i < lower_hex(bytes).len() ==> !('A' <= #[trigger] lower_hex(bytes)[i] && lower_hex(
                bytes,
            )[i] <= 'Z'),
    decreases bytes.len(),
{
    if bytes.len() > 0 {
        let rest = bytes.drop_last();
        hex_reads_back(rest);
        let text = lower_hex(bytes);
        let front = lower_hex(rest);
        let b = bytes.last();
        let n = rest.len() as int;
        assert(text[2 * n] == digit(b as int / 16));
        assert(text[2 * n + 1] == digit(b as int % 16));
        assert forall|i: int| 0 <= i < text.len() implies hex_digit(#[trigger] text[i]) is Some by {
            if i < front.len() {
                assert(text[i] == front[i]);
            }
        }
        assert forall|i: int| 0 <= i < bytes.len() implies #[trigger] hex_bytes(text)[i]
            == bytes[i] by {
            if i < n {
                assert(text[2 * i] == front[2 * i]);
                assert(text[2 * i + 1] == front[2 * i + 1]);
                assert(hex_bytes(front)[i] == rest[i]);
            }
        }
        assert(hex_bytes(text) =~= bytes);
        assert forall|i: int| 0 <= i < text.len() implies !('A' <= #[trigger] text[i] && text[i]
            <= 'Z') by {
            if i < front.len() {
                assert(text[i] == front[i]);
            }
        }
    } else {
        assert(hex_bytes(lower_hex(bytes)) =~= bytes);
    }
}

/// The id of a transaction is written last byte first: it reads back as its bytes in
/// reverse.
pub proof fn an_id_is_written_backwards(txid: Seq<u8>)
    ensures
        hex_bytes(txid_text(txid)).len() == txid.len(),
        forall|i: int|
            0 <= i < txid.len() ==> #[trigger] hex_bytes(txid_text(txid))[i] == txid[txid.len() - 1
                - i],
{
    hex_reads_back(txid.reverse());
}

proof fn lemma_pair_reads(front: Seq<char>, b: u8)
    ensures
        number_of(front + hex_pair(b), 16) == number_of(front, 16) * 256 + b,
{
    let text = front + hex_pair(b);
    let mid = text.drop_last();
    assert(mid.drop_last() =~= front);
    assert(mid.last() == digit(b as int / 16));
    assert(text.last() == digit(b as int % 16));
    assert(hex_digit(digit(b as int / 16))->0 == b as int / 16);
    assert(hex_digit(digit(b as int % 16))->0 == b as int % 16);
    assert(number_of(mid, 16) == number_of(front, 16) * 16 + b as int / 16);
    assert(number_of(text, 16) == number_of(mid, 16) * 16 + b as int % 16);
}

/// A word written in hexadecimal is `0x` and eight digits that read back as the word.
pub proof fn a_hex_word_reads_back(n: u32)
    ensures
        hex_word(n).len() == 10,
        hex_word(n)[0] == '0' && hex_word(n)[1] == 'x',
        number_of(hex_word(n).skip(2), 16) == n,
{
    let (a, b, c, d) = (
        (n / 0x100_0000) as u8,
        (n / 0x1_0000 % 0x100) as u8,
        (n / 0x100 % 0x100) as u8,
        (n % 0x100) as u8,
    );
    let none = Seq::<char>::empty();
    let one = none + hex_pair(a);
    let two = one + hex_pair(b);
    let three = two + hex_pair(c);
    lemma_pair_reads(none, a);
    lemma_pair_reads(one, b);
    lemma_pair_reads(two, c);
    lemma_pair_reads(three, d);
    assert(hex_word(n).skip(2) =~= three + hex_pair(d));
    assert(number_of(none, 16) == 0);
}

/// Whether `text` holds the number, written in decimal.
pub open spec fn tells(text: Seq<char>, n: nat) -> bool {
    exists|before: Seq<char>, after: Seq<char>| text == #[trigger] (before + decimal(n) + after)
}

/// A text that holds the number tells it.
pub(crate) proof fn lemma_tells(text: Seq<char>, before: Seq<char>, n: nat, after: Seq<char>)
    requires
        text =~= before + decimal(n) + after,
    ensures
        tells(text, n),
{
}

} // verus!
