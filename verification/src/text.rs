//! Text forms of numbers and addresses, and the bridge between UTF-8 bytes
//! and strings.
use vstd::prelude::*;
use vstd::utf8::*;

verus! {

broadcast use {encode_utf8_valid_utf8, encode_utf8_decode_utf8, is_ascii_chars_encode_utf8};

/// The decimal digit `d`.
pub open spec fn decimal_digit(d: nat) -> char {
    if d == 0 { '0' }
    else if d == 1 { '1' }
    else if d == 2 { '2' }
    else if d == 3 { '3' }
    else if d == 4 { '4' }
    else if d == 5 { '5' }
    else if d == 6 { '6' }
    else if d == 7 { '7' }
    else if d == 8 { '8' }
    else { '9' }
}

/// The lower-case hexadecimal digit `d`.
pub open spec fn hex_digit(d: nat) -> char {
    if d < 10 { decimal_digit(d) }
    else if d == 10 { 'a' }
    else if d == 11 { 'b' }
    else if d == 12 { 'c' }
    else if d == 13 { 'd' }
    else if d == 14 { 'e' }
    else { 'f' }
}

/// `n` written in decimal, without leading zeros.
pub open spec fn nat_decimal(n: nat) -> Seq<char>
    decreases n,
{
    if n < 10 {
        seq![decimal_digit(n)]
    } else {
        nat_decimal(n / 10) + seq![decimal_digit(n % 10)]
    }
}

/// `n` written in lower-case hexadecimal, without leading zeros.
pub open spec fn nat_hex(n: nat) -> Seq<char>
    decreases n,
{
    if n < 16 {
        seq![hex_digit(n)]
    } else {
        nat_hex(n / 16) + seq![hex_digit(n % 16)]
    }
}

/// The byte of each character of an ASCII text.
pub open spec fn ascii_bytes(cs: Seq<char>) -> Seq<u8> {
    Seq::new(cs.len(), |i: int| cs[i] as u8)
}

pub proof fn lemma_decimal_digit(d: nat)
    requires
        d < 10,
    ensures
        decimal_digit(d) as u8 == 48 + d,
        '\0' <= decimal_digit(d) <= '\u{7f}',
{
}

proof fn lemma_hex_digit(d: nat)
    requires
        d < 16,
    ensures
        hex_digit(d) as u8 == if d < 10 { 48 + d } else { 87 + d },
        '\0' <= hex_digit(d) <= '\u{7f}',
{
    if d < 10 {
        lemma_decimal_digit(d);
    }
}

/// Decimal text is ASCII.
pub proof fn lemma_nat_decimal_ascii(n: nat)
    ensures
        is_ascii_chars(nat_decimal(n)),
        nat_decimal(n).len() >= 1,
    decreases n,
{
    if n < 10 {
        lemma_decimal_digit(n);
    } else {
        lemma_nat_decimal_ascii(n / 10);
        lemma_decimal_digit(n % 10);
        let a = nat_decimal(n / 10);
        let b = seq![decimal_digit(n % 10)];
        assert forall|i| 0 <= i < (a + b).len() implies '\0' <= #[trigger] (a + b)[i] <= '\u{7f}' by {
            if i < a.len() {
                assert((a + b)[i] == a[i]);
            } else {
                assert((a + b)[i] == b[i - a.len()]);
            }
        }
    }
}

/// Hexadecimal text is ASCII.
pub proof fn lemma_nat_hex_ascii(n: nat)
    ensures
        is_ascii_chars(nat_hex(n)),
    decreases n,
{
    if n < 16 {
        lemma_hex_digit(n);
    } else {
        lemma_nat_hex_ascii(n / 16);
        lemma_hex_digit(n % 16);
        let a = nat_hex(n / 16);
        let b = seq![hex_digit(n % 16)];
        assert forall|i| 0 <= i < (a + b).len() implies '\0' <= #[trigger] (a + b)[i] <= '\u{7f}' by {
            if i < a.len() {
                assert((a + b)[i] == a[i]);
            } else {
                assert((a + b)[i] == b[i - a.len()]);
            }
        }
    }
}

/// The value of a decimal or lower-case hexadecimal digit.
pub open spec fn digit_value(c: char) -> int {
    if '0' <= c <= '9' {
        c as int - '0' as int
    } else if 'a' <= c <= 'f' {
        c as int - 'a' as int + 10
    } else {
        0
    }
}

/// The value of a text of digits in base `base`, most significant first.
pub open spec fn text_value(cs: Seq<char>, base: nat) -> int
    decreases cs.len(),
{
    if cs.len() == 0 {
        0
    } else {
        text_value(cs.drop_last(), base) * base + digit_value(cs.last())
    }
}

proof fn lemma_text_value_push(a: Seq<char>, c: char, base: nat)
    ensures
        text_value(a + seq![c], base) == text_value(a, base) * base + digit_value(c),
{
    assert((a + seq![c]).drop_last() =~= a);
}

/// Decimal text is the number read back: it is made of the digits 0 to 9,
/// it has no leading zero (0 is written "0"), and read in base 10 it is `n`.
pub proof fn lemma_decimal_text(n: nat)
    ensures
        forall|i: int| 0 <= i < nat_decimal(n).len() ==> '0' <= #[trigger] nat_decimal(n)[i] <= '9',
        nat_decimal(n).len() >= 1,
        nat_decimal(n)[0] == '0' ==> n == 0 && nat_decimal(n).len() == 1,
        text_value(nat_decimal(n), 10) == n,
    decreases n,
{
    if n < 10 {
        lemma_decimal_digit(n);
        assert(text_value(seq![decimal_digit(n)], 10) == text_value(Seq::<char>::empty(), 10) * 10
            + digit_value(decimal_digit(n))) by {
            lemma_text_value_push(Seq::empty(), decimal_digit(n), 10);
            assert(Seq::<char>::empty() + seq![decimal_digit(n)] =~= seq![decimal_digit(n)]);
        }
    } else {
        lemma_decimal_text(n / 10);
        lemma_decimal_digit(n % 10);
        let a = nat_decimal(n / 10);
        let c = decimal_digit(n % 10);
        lemma_text_value_push(a, c, 10);
        assert forall|i: int| 0 <= i < (a + seq![c]).len() implies '0' <= #[trigger] (a + seq![c])[i]
            <= '9' by {
            if i < a.len() {
                assert((a + seq![c])[i] == a[i]);
            }
        }
        assert((a + seq![c])[0] == a[0]);
    }
}

/// Hexadecimal text is the number read back: it is made of the digits 0 to
/// 9 and the lower-case letters a to f, it has no leading zero (0 is written
/// "0"), and read in base 16 it is `n`.
pub proof fn lemma_hex_text(n: nat)
    ensures
        forall|i: int|
            0 <= i < nat_hex(n).len() ==> ('0' <= #[trigger] nat_hex(n)[i] <= '9' || 'a' <= nat_hex(n)[i]
                <= 'f'),
        nat_hex(n).len() >= 1,
        nat_hex(n)[0] == '0' ==> n == 0 && nat_hex(n).len() == 1,
        text_value(nat_hex(n), 16) == n,
    decreases n,
{
    if n < 16 {
        lemma_hex_digit(n);
        if n < 10 {
            lemma_decimal_digit(n);
        }
        assert(text_value(seq![hex_digit(n)], 16) == text_value(Seq::<char>::empty(), 16) * 16
            + digit_value(hex_digit(n))) by {
            lemma_text_value_push(Seq::empty(), hex_digit(n), 16);
            assert(Seq::<char>::empty() + seq![hex_digit(n)] =~= seq![hex_digit(n)]);
        }
    } else {
        lemma_hex_text(n / 16);
        lemma_hex_digit(n % 16);
        if n % 16 < 10 {
            lemma_decimal_digit(n % 16);
        }
        let a = nat_hex(n / 16);
        let c = hex_digit(n % 16);
        lemma_text_value_push(a, c, 16);
        assert forall|i: int| 0 <= i < (a + seq![c]).len() implies ('0' <= #[trigger] (a
            + seq![c])[i] <= '9' || 'a' <= (a + seq![c])[i] <= 'f') by {
            if i < a.len() {
                assert((a + seq![c])[i] == a[i]);
            }
        }
        assert((a + seq![c])[0] == a[0]);
    }
}

/// Two ASCII texts joined are ASCII, and their bytes are the bytes of each.
pub proof fn lemma_ascii_concat(a: Seq<char>, b: Seq<char>)
    requires
        is_ascii_chars(a),
        is_ascii_chars(b),
    ensures
        is_ascii_chars(a + b),
        ascii_bytes(a + b) == ascii_bytes(a) + ascii_bytes(b),
{
    lemma_ascii_bytes_concat(a, b);
    assert forall|i| 0 <= i < (a + b).len() implies '\0' <= #[trigger] (a + b)[i] <= '\u{7f}' by {
        if i < a.len() {
            assert((a + b)[i] == a[i]);
        } else {
            assert((a + b)[i] == b[i - a.len()]);
        }
    }
}

/// The bytes of two texts joined are the bytes of each, joined.
pub proof fn lemma_ascii_bytes_concat(a: Seq<char>, b: Seq<char>)
    ensures
        ascii_bytes(a + b) == ascii_bytes(a) + ascii_bytes(b),
{
    assert(ascii_bytes(a + b) =~= ascii_bytes(a) + ascii_bytes(b));
}

/// Appends the decimal text of `n`.
pub fn push_decimal(out: &mut Vec<u8>, n: u64)
    ensures
        final(out)@ == old(out)@ + ascii_bytes(nat_decimal(n as nat)),
    decreases n,
{
    proof {
        lemma_decimal_digit((n % 10) as nat);
    }
    if n >= 10 {
        push_decimal(out, n / 10);
    }
    let c: u8 = 48u8 + (n % 10) as u8;
    out.push(c);
    proof {
        if n < 10 {
            assert(out@ =~= old(out)@ + ascii_bytes(nat_decimal(n as nat)));
        } else {
            assert(ascii_bytes(nat_decimal(n as nat)) =~= ascii_bytes(nat_decimal((n / 10) as nat))
                + seq![c]);
            assert(out@ =~= old(out)@ + ascii_bytes(nat_decimal(n as nat)));
        }
    }
}

/// Appends the lower-case hexadecimal text of `n`.
pub fn push_hex(out: &mut Vec<u8>, n: u16)
    ensures
        final(out)@ == old(out)@ + ascii_bytes(nat_hex(n as nat)),
    decreases n,
{
    let d: u8 = (n % 16) as u8;
    proof {
        lemma_hex_digit(d as nat);
    }
    if n >= 16 {
        push_hex(out, n / 16);
    }
    let c: u8 = if d < 10 { 48u8 + d } else { 87u8 + d };
    out.push(c);
    proof {
        if n < 16 {
            assert(out@ =~= old(out)@ + ascii_bytes(nat_hex(n as nat)));
        } else {
            assert(ascii_bytes(nat_hex(n as nat)) =~= ascii_bytes(nat_hex((n / 16) as nat)) + seq![c]);
            assert(out@ =~= old(out)@ + ascii_bytes(nat_hex(n as nat)));
        }
    }
}

/// `String::from_utf8` of std: the string whose bytes are `bytes`, when
/// they are valid UTF-8. The contract claims that it succeeds exactly on
/// valid UTF-8 and that the string then holds the characters those bytes
/// encode.
#[verifier::external_body]
pub(crate) fn string_from_utf8(bytes: Vec<u8>) -> (s: Option<String>)
    ensures
        s is Some <==> valid_utf8(bytes@),
        s matches Some(t) ==> t@ == decode_utf8(bytes@),
{
    String::from_utf8(bytes).ok()
}

/// The decimal text of `n`.
pub fn decimal_string(n: u64) -> (s: String)
    ensures
        s@ == nat_decimal(n as nat),
{
    let mut bytes: Vec<u8> = Vec::new();
    push_decimal(&mut bytes, n);
    proof {
        lemma_nat_decimal_ascii(n as nat);
        assert(bytes@ =~= ascii_bytes(nat_decimal(n as nat)));
    }
    ascii_string(bytes, Ghost(nat_decimal(n as nat)))
}

/// The string of an ASCII text given by its bytes.
pub fn ascii_string(bytes: Vec<u8>, Ghost(text): Ghost<Seq<char>>) -> (s: String)
    requires
        is_ascii_chars(text),
        bytes@ == ascii_bytes(text),
    ensures
        s@ == text,
{
    assert(bytes@ =~= encode_utf8(text));
    let r = string_from_utf8(bytes);
    match r {
        Some(s) => s,
        None => String::new(),
    }
}

} // verus!
