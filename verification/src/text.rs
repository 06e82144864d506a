//! Text and bytes: the UTF-8 image of text on the wire, which bytes it can
//! and cannot hold, and numbers written in decimal.

use vstd::prelude::*;
use vstd::utf8::*;

verus! {

/// The bytes that a piece of text occupies on the wire.
pub open spec fn wire(text: Seq<char>) -> Seq<u8> {
    encode_utf8(text)
}

/// The wire image of a concatenation is the concatenation of the wire images.
pub proof fn lemma_wire_concat(a: Seq<char>, b: Seq<char>)
    ensures
        wire(a + b) == wire(a) + wire(b),
    decreases a.len(),
{
    if a.len() == 0 {
        assert(a + b =~= b);
        assert(wire(a) + wire(b) =~= wire(b));
    } else {
        assert((a + b).drop_first() =~= a.drop_first() + b);
        assert((a + b)[0] == a[0]);
        lemma_wire_concat(a.drop_first(), b);
        assert(wire(a + b) =~= wire(a) + wire(b));
    }
}

/// Two texts with the same wire image are the same text.
pub proof fn lemma_wire_injective(a: Seq<char>, b: Seq<char>)
    requires
        wire(a) == wire(b),
    ensures
        a == b,
{
    encode_utf8_decode_utf8(a);
    encode_utf8_decode_utf8(b);
}

/// Whether two byte slices hold the same bytes.
pub fn bytes_eq(a: &[u8], b: &[u8]) -> (same: bool)
    ensures
        same == (a@ == b@),
{
    if a.len() != b.len() {
        return false;
    }
    let mut i: usize = 0;
    while i < a.len()
        invariant
            a.len() == b.len(),
            i <= a.len(),
            forall|k: int| 0 <= k < i ==> a@[k] == b@[k],
        decreases a.len() - i,
    {
        if a[i] != b[i] {
            return false;
        }
        i += 1;
    }
    assert(a@ =~= b@);
    true
}

/// Whether two strings hold the same text.
pub fn str_eq(a: &str, b: &str) -> (same: bool)
    ensures
        same == (a@ == b@),
{
    let same = bytes_eq(a.as_bytes(), b.as_bytes());
    proof {
        if same {
            lemma_wire_injective(a@, b@);
        }
    }
    same
}

/// Appends the wire image of `s` to `buf`.
pub fn push_text(buf: &mut Vec<u8>, s: &str)
    ensures
        final(buf)@ == old(buf)@ + wire(s@),
{
    let bytes = s.as_bytes();
    let ghost before = buf@;
    let mut i: usize = 0;
    while i < bytes.len()
        invariant
            i <= bytes.len(),
            bytes@ == wire(s@),
            buf@ == before + bytes@.subrange(0, i as int),
        decreases bytes.len() - i,
    {
        buf.push(bytes[i]);
        i += 1;
        assert(buf@ =~= before + bytes@.subrange(0, i as int));
    }
    assert(bytes@.subrange(0, i as int) =~= bytes@);
}

/// Whether a text holds no `c`.
pub open spec fn lacks(text: Seq<char>, c: char) -> bool {
    forall|i: int| 0 <= i < text.len() ==> #[trigger] text[i] != c
}

/// Whether bytes hold no `b`.
pub open spec fn lacks_byte(bytes: Seq<u8>, b: u8) -> bool {
    forall|i: int| 0 <= i < bytes.len() ==> #[trigger] bytes[i] != b
}

/// Whether no CR in a text is followed by LF.
pub open spec fn lacks_line_break(text: Seq<char>) -> bool {
    forall|i: int| 0 <= i && i + 1 < text.len() ==> !(#[trigger] text[i] == '\r' && text[i + 1] == '\n')
}

/// Whether no CR in bytes is followed by LF.
pub open spec fn lacks_crlf(bytes: Seq<u8>) -> bool {
    forall|i: int| 0 <= i && i + 1 < bytes.len() ==> !(#[trigger] bytes[i] == 13 && bytes[i + 1] == 10)
}

/// Characters with the same number are the same character.
pub proof fn lemma_char_eq(a: char, b: char)
    requires
        a as u32 == b as u32,
    ensures
        a == b,
{
    char_u32_cast(a, a as u32);
    char_u32_cast(b, b as u32);
}

/// The wire image of one character: a character below 128 is one byte,
/// itself; any other is bytes of 128 and more.
pub proof fn lemma_wire_of_char(c: char)
    ensures
        1 <= wire(seq![c]).len() <= 4,
        (c as u32) < 0x80 ==> wire(seq![c]) == seq![(c as u32) as u8],
        (c as u32) >= 0x80 ==> forall|j: int|
            0 <= j < wire(seq![c]).len() ==> #[trigger] wire(seq![c])[j] >= 0x80,
{
    let v = c as u32;
    reveal_with_fuel(encode_utf8, 2);
    assert(seq![c].drop_first() =~= Seq::<char>::empty());
    assert(wire(seq![c]) =~= encode_scalar(v));
    let b0 = ((v >> 6) & 0x1F) as u8;
    let b1 = ((v >> 12) & 0x0F) as u8;
    let b2 = ((v >> 18) & 0x7) as u8;
    let c0 = (v & 0x3F) as u8;
    let c1 = ((v >> 6) & 0x3F) as u8;
    let c2 = ((v >> 12) & 0x3F) as u8;
    assert(0xC0u8 | b0 >= 0x80) by (bit_vector);
    assert(0xE0u8 | b1 >= 0x80) by (bit_vector);
    assert(0xF0u8 | b2 >= 0x80) by (bit_vector);
    assert(0x80u8 | c0 >= 0x80) by (bit_vector);
    assert(0x80u8 | c1 >= 0x80) by (bit_vector);
    assert(0x80u8 | c2 >= 0x80) by (bit_vector);
    if v < 0x80 {
        assert((v & 0x7F) as u8 == v as u8) by (bit_vector)
            requires
                v < 0x80,
        ;
        assert(wire(seq![c]) =~= seq![v as u8]);
    }
}

/// The wire image of a text starts with the bytes of its first character.
pub proof fn lemma_wire_first(text: Seq<char>)
    requires
        text.len() > 0,
    ensures
        wire(text).len() > 0,
        (text[0] as u32) < 0x80 ==> wire(text)[0] == (text[0] as u32) as u8,
        (text[0] as u32) >= 0x80 ==> wire(text)[0] >= 0x80,
{
    lemma_wire_of_char(text[0]);
    assert(text =~= seq![text[0]] + text.drop_first());
    lemma_wire_concat(seq![text[0]], text.drop_first());
    assert(wire(text)[0] == wire(seq![text[0]])[0]);
}

/// The wire image of a text ends with the bytes of its last character.
pub proof fn lemma_wire_last(text: Seq<char>)
    requires
        text.len() > 0,
    ensures
        wire(text).len() > 0,
        (text.last() as u32) < 0x80 ==> wire(text).last() == (text.last() as u32) as u8,
        (text.last() as u32) >= 0x80 ==> wire(text).last() >= 0x80,
{
    lemma_wire_of_char(text.last());
    assert(text =~= text.drop_last() + seq![text.last()]);
    lemma_wire_concat(text.drop_last(), seq![text.last()]);
    let tail = wire(seq![text.last()]);
    assert(wire(text).last() == tail[tail.len() - 1]);
}

/// A text without a character below 128 has a wire image without its
/// byte.
pub proof fn lemma_wire_lacks(text: Seq<char>, c: char)
    requires
        (c as u32) < 0x80,
        lacks(text, c),
    ensures
        lacks_byte(wire(text), (c as u32) as u8),
    decreases text.len(),
{
    if text.len() > 0 {
        let head = seq![text[0]];
        let rest = text.drop_first();
        assert(text =~= head + rest);
        lemma_wire_concat(head, rest);
        lemma_wire_of_char(text[0]);
        assert forall|i: int| 0 <= i < rest.len() implies #[trigger] rest[i] != c by {
            assert(rest[i] == text[i + 1]);
        }
        lemma_wire_lacks(rest, c);
        assert(text[0] != c);
        assert forall|j: int| 0 <= j < wire(text).len() implies #[trigger] wire(text)[j] != (c as u32) as u8 by {
            if j < wire(head).len() {
                assert(wire(text)[j] == wire(head)[j]);
                if (text[0] as u32) < 0x80 && (text[0] as u32) as u8 == (c as u32) as u8 {
                    lemma_char_eq(text[0], c);
                }
            } else {
                assert(wire(text)[j] == wire(rest)[j - wire(head).len()]);
            }
        }
    }
}

/// In the wire image of a text in which no CR is followed by LF, no CR is
/// followed by LF.
pub proof fn lemma_wire_lacks_crlf(text: Seq<char>)
    requires
        lacks_line_break(text),
    ensures
        lacks_crlf(wire(text)),
    decreases text.len(),
{
    if text.len() > 0 {
        let head = seq![text[0]];
        let rest = text.drop_first();
        assert(text =~= head + rest);
        lemma_wire_concat(head, rest);
        lemma_wire_of_char(text[0]);
        assert forall|i: int| 0 <= i && i + 1 < rest.len() implies !(#[trigger] rest[i] == '\r'
            && rest[i + 1] == '\n') by {
            assert(rest[i] == text[i + 1]);
            assert(rest[i + 1] == text[i + 2]);
        }
        lemma_wire_lacks_crlf(rest);
        let n = wire(head).len();
        assert forall|j: int| 0 <= j && j + 1 < wire(text).len() implies !(#[trigger] wire(
            text,
        )[j] == 13 && wire(text)[j + 1] == 10) by {
            if j >= n {
                assert(wire(text)[j] == wire(rest)[j - n]);
                assert(wire(text)[j + 1] == wire(rest)[j + 1 - n]);
            } else if j + 1 < n {
                assert(wire(text)[j] == wire(head)[j]);
                assert((text[0] as u32) >= 0x80);
            } else {
                assert(wire(text)[j] == wire(head)[j]);
                assert(wire(text)[j + 1] == wire(rest)[0]);
                if wire(text)[j] == 13 && wire(text)[j + 1] == 10 {
                    assert((text[0] as u32) < 0x80);
                    lemma_char_eq(text[0], '\r');
                    lemma_wire_first(rest);
                    assert(rest[0] == text[1]);
                    lemma_char_eq(text[1], '\n');
                    assert(text[0] == '\r' && text[1] == '\n');
                }
            }
        }
    }
}

/// Bytes put together hold a CR followed by LF only where one part does,
/// or where a part that ends in CR stands before one that starts with LF.
pub proof fn lemma_lacks_crlf_concat(a: Seq<u8>, b: Seq<u8>)
    requires
        lacks_crlf(a),
        lacks_crlf(b),
        a.len() == 0 || b.len() == 0 || !(a.last() == 13 && b[0] == 10),
    ensures
        lacks_crlf(a + b),
{
    assert forall|i: int| 0 <= i && i + 1 < (a + b).len() implies !(#[trigger] (a + b)[i] == 13 && (
    a + b)[i + 1] == 10) by {
        if i + 1 < a.len() {
            assert((a + b)[i] == a[i] && (a + b)[i + 1] == a[i + 1]);
        } else if i >= a.len() {
            assert((a + b)[i] == b[i - a.len()] && (a + b)[i + 1] == b[i + 1 - a.len()]);
        } else {
            assert((a + b)[i] == a.last() && (a + b)[i + 1] == b[0]);
        }
    }
}

/// The character that stands for a digit below ten.
pub open spec fn digit_char(d: nat) -> char
    recommends
        d < 10,
{
    (0x30 + d) as char
}

/// A number written in decimal, without sign or leading zeros.
pub open spec fn decimal(n: nat) -> Seq<char>
    decreases n,
{
    if n < 10 {
        seq![digit_char(n)]
    } else {
        decimal(n / 10).push(digit_char(n % 10))
    }
}

/// Whether a byte is an ASCII digit.
pub open spec fn is_digit(b: u8) -> bool {
    0x30 <= b <= 0x39
}

/// The number that a run of ASCII digits stands for.
pub open spec fn digits_value(digits: Seq<u8>) -> nat
    decreases digits.len(),
{
    if digits.len() == 0 {
        0
    } else {
        (digits_value(digits.drop_last()) * 10 + (digits.last() - 0x30)) as nat
    }
}

/// The number that a text in wire form stands for: one or more ASCII digits,
/// which a single `+` may precede. Any other text stands for no number.
pub open spec fn number_of(bytes: Seq<u8>) -> Option<nat> {
    let digits = without_sign(bytes);
    if digits.len() > 0 && all_digits(digits) {
        Some(digits_value(digits))
    } else {
        None
    }
}

/// A text in wire form without the `+` that it may start with.
pub open spec fn without_sign(bytes: Seq<u8>) -> Seq<u8> {
    if bytes.len() > 0 && bytes[0] == 0x2b {
        bytes.drop_first()
    } else {
        bytes
    }
}

/// Whether every byte is an ASCII digit.
pub open spec fn all_digits(bytes: Seq<u8>) -> bool {
    forall|i: int| 0 <= i < bytes.len() ==> is_digit(#[trigger] bytes[i])
}

/// The wire form of a decimal number: its digits as bytes.
pub proof fn lemma_decimal_wire(n: nat)
    ensures
        wire(decimal(n)).len() == decimal(n).len(),
        decimal(n).len() >= 1,
        forall|i: int|
            0 <= i < decimal(n).len() ==> is_digit(#[trigger] wire(decimal(n))[i]) && wire(
                decimal(n),
            )[i] == decimal(n)[i] as u8,
        digits_value(wire(decimal(n))) == n,
    decreases n,
{
    lemma_decimal_ascii(n);
    is_ascii_chars_encode_utf8(decimal(n));
    let w = wire(decimal(n));
    if n < 10 {
        assert(w.drop_last().len() == 0);
        assert(digits_value(w.drop_last()) == 0);
        assert(w.last() == digit_char(n) as u8);
    } else {
        lemma_decimal_wire(n / 10);
        lemma_wire_concat(decimal(n / 10), seq![digit_char(n % 10)]);
        assert(decimal(n) =~= decimal(n / 10) + seq![digit_char(n % 10)]);
        assert(w.drop_last() =~= wire(decimal(n / 10)));
        assert(w.last() == digit_char(n % 10) as u8);
    }
}

/// A decimal number is made of ASCII digits.
pub proof fn lemma_decimal_ascii(n: nat)
    ensures
        is_ascii_chars(decimal(n)),
        decimal(n).len() >= 1,
        forall|i: int|
            0 <= i < decimal(n).len() ==> 0x30 <= (#[trigger] decimal(n)[i]) as u32 <= 0x39,
    decreases n,
{
    if n >= 10 {
        lemma_decimal_ascii(n / 10);
    }
}

/// A number written in decimal is read back as itself.
pub proof fn lemma_number_of_decimal(n: nat)
    ensures
        number_of(wire(decimal(n))) == Some(n),
{
    lemma_decimal_wire(n);
    let w = wire(decimal(n));
    assert(is_digit(w[0]));
}

/// A run of digits stands for at least as much as any run it starts with.
pub proof fn lemma_digits_value_grows(digits: Seq<u8>, k: int)
    requires
        0 <= k <= digits.len(),
        all_digits(digits),
    ensures
        digits_value(digits.take(k)) <= digits_value(digits),
    decreases digits.len() - k,
{
    if k == digits.len() {
        assert(digits.take(k) =~= digits);
    } else {
        lemma_digits_value_grows(digits, k + 1);
        assert(digits.take(k + 1).drop_last() =~= digits.take(k));
        assert(is_digit(digits[k]));
        assert(digits.take(k + 1).last() == digits[k]);
    }
}

fn digit_str(d: usize) -> (s: &'static str)
    requires
        d < 10,
    ensures
        s@ == seq![digit_char(d as nat)],
{
    proof {
        reveal_strlit("0");
        reveal_strlit("1");
        reveal_strlit("2");
        reveal_strlit("3");
        reveal_strlit("4");
        reveal_strlit("5");
        reveal_strlit("6");
        reveal_strlit("7");
        reveal_strlit("8");
        reveal_strlit("9");
    }
    let s = if d == 0 {
        "0"
    } else if d == 1 {
        "1"
    } else if d == 2 {
        "2"
    } else if d == 3 {
        "3"
    } else if d == 4 {
        "4"
    } else if d == 5 {
        "5"
    } else if d == 6 {
        "6"
    } else if d == 7 {
        "7"
    } else if d == 8 {
        "8"
    } else {
        "9"
    };
    assert(s@ =~= seq![digit_char(d as nat)]);
    s
}

/// Appends `n`, written in decimal, to `out`.
pub fn push_decimal(out: &mut String, n: usize)
    ensures
        final(out)@ == old(out)@ + decimal(n as nat),
    decreases n,
{
    if n < 10 {
        out.append(digit_str(n));
    } else {
        push_decimal(out, n / 10);
        out.append(digit_str(n % 10));
        assert(out@ =~= old(out)@ + decimal(n as nat));
    }
}

/// `n` written in decimal.
pub fn decimal_string(n: usize) -> (text: String)
    ensures
        text@ == decimal(n as nat),
{
    let mut text = String::new();
    push_decimal(&mut text, n);
    assert(text@ =~= decimal(n as nat));
    text
}

/// Reads a number from its wire form. There is a result where the text
/// stands for a number that a `usize` can hold.
pub fn parse_number(bytes: &[u8]) -> (number: Option<usize>)
    ensures
        number == match number_of(bytes@) {
            Some(n) => if n <= usize::MAX {
                Some(n as usize)
            } else {
                None
            },
            None => None,
        },
{
    let start: usize = if bytes.len() > 0 && bytes[0] == 0x2b {
        1
    } else {
        0
    };
    let ghost digits = bytes@.skip(start as int);
    assert(start == 1 ==> digits =~= bytes@.drop_first());
    assert(start == 0 ==> digits =~= bytes@);
    if start == bytes.len() {
        return None;
    }
    let mut value: usize = 0;
    let mut i: usize = start;
    while i < bytes.len()
        invariant
            start <= i <= bytes.len(),
            digits == bytes@.skip(start as int),
            digits == without_sign(bytes@),
            forall|k: int| 0 <= k < i - start ==> is_digit(#[trigger] digits[k]),
            value == digits_value(digits.take(i - start)),
        decreases bytes.len() - i,
    {
        let b = bytes[i];
        assert(digits[i - start] == b);
        if b < 0x30 || b > 0x39 {
            assert(!is_digit(digits[i - start]));
            return None;
        }
        let d: usize = (b - 0x30) as usize;
        proof {
            assert(digits.take(i + 1 - start).drop_last() =~= digits.take(i - start));
            assert(digits.take(i + 1 - start).last() == b);
        }
        if value > (usize::MAX - d) / 10 {
            proof {
                if all_digits(digits) {
                    lemma_digits_value_grows(digits, i + 1 - start);
                    assert(digits_value(digits.take(i + 1 - start)) == value * 10 + d);
                    assert(value * 10 + d > usize::MAX);
                }
            }
            return None;
        }
        value = value * 10 + d;
        i += 1;
    }
    assert(digits.take(i - start) =~= digits);
    Some(value)
}

} // verus!
