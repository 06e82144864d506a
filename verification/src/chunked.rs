//! Chunked transfer coding: a body sent as chunks, each behind a line that
//! gives its size in hexadecimal, up to a chunk of size zero.

use vstd::prelude::*;
use crate::lines::{find, find_byte, find_line_end, is_crlf_at, lemma_line_end, line_end, Scan};

verus! {

/// Whether a byte is a hexadecimal digit.
pub open spec fn is_hex(b: u8) -> bool {
    (0x30 <= b <= 0x39) || (0x41 <= b <= 0x46) || (0x61 <= b <= 0x66)
}

/// The value of a hexadecimal digit.
pub open spec fn hex_digit(b: u8) -> nat
    recommends
        is_hex(b),
{
    if b <= 0x39 {
        (b - 0x30) as nat
    } else if b <= 0x46 {
        (b - 0x41 + 10) as nat
    } else {
        (b - 0x61 + 10) as nat
    }
}

/// Whether every byte is a hexadecimal digit.
pub open spec fn all_hex(digits: Seq<u8>) -> bool {
    forall|i: int| 0 <= i < digits.len() ==> is_hex(#[trigger] digits[i])
}

/// The number that a run of hexadecimal digits stands for.
pub open spec fn hex_value(digits: Seq<u8>) -> nat
    decreases digits.len(),
{
    if digits.len() == 0 {
        0
    } else {
        hex_value(digits.drop_last()) * 16 + hex_digit(digits.last())
    }
}

/// The size that the line from `from` up to `to` gives: its hexadecimal
/// digits up to the end or to a semicolon, behind which extensions stand.
/// A line that does not start with such digits gives no size.
pub open spec fn chunk_size(bytes: Seq<u8>, from: int, to: int) -> Option<nat> {
    let digits = bytes.subrange(from, find_byte(bytes, 59, from, to));
    if digits.len() > 0 && all_hex(digits) {
        Some(hex_value(digits))
    } else {
        None
    }
}

/// The body whose chunks start at `from`: the data of the chunks in order,
/// up to the chunk of size zero. What follows that chunk's size line is not
/// read.
pub open spec fn chunked_body(bytes: Seq<u8>, from: int) -> Scan<Seq<u8>>
    decreases bytes.len() - from,
{
    let end = line_end(bytes, from);
    if from < 0 || end < from || end + 2 > bytes.len() {
        Scan::More
    } else {
        match chunk_size(bytes, from, end) {
            None => Scan::Bad,
            Some(size) => {
                let data = end + 2;
                if size == 0 {
                    Scan::Done(Seq::empty())
                } else if data + size + 2 > bytes.len() {
                    Scan::More
                } else if !is_crlf_at(bytes, data + size) {
                    Scan::Bad
                } else {
                    match chunked_body(bytes, data + size + 2) {
                        Scan::Done(rest) => Scan::Done(bytes.subrange(data, data + size) + rest),
                        Scan::More => Scan::More,
                        Scan::Bad => Scan::Bad,
                    }
                }
            },
        }
    }
}

/// The chunked body that starts at `from`, given the one that starts behind
/// some of its chunks, which hold `data`.
pub open spec fn body_after(data: Seq<u8>, rest: Scan<Seq<u8>>) -> Scan<Seq<u8>> {
    match rest {
        Scan::Done(more) => Scan::Done(data + more),
        Scan::More => Scan::More,
        Scan::Bad => Scan::Bad,
    }
}

/// A size read from a line.
enum Size {
    /// The line gives no size.
    Invalid,
    /// The size is more than a `usize` holds.
    Huge,
    Of(usize),
}

fn hex_digit_of(b: u8) -> (digit: Option<usize>)
    ensures
        match digit {
            Some(d) => is_hex(b) && d == hex_digit(b) && d < 16,
            None => !is_hex(b),
        },
{
    if 0x30 <= b && b <= 0x39 {
        Some((b - 0x30) as usize)
    } else if 0x41 <= b && b <= 0x46 {
        Some((b - 0x41 + 10) as usize)
    } else if 0x61 <= b && b <= 0x66 {
        Some((b - 0x61 + 10) as usize)
    } else {
        None
    }
}

fn read_chunk_size(bytes: &[u8], from: usize, to: usize) -> (size: Size)
    requires
        from <= to <= bytes.len(),
    ensures
        match size {
            Size::Invalid => chunk_size(bytes@, from as int, to as int).is_none(),
            Size::Huge => match chunk_size(bytes@, from as int, to as int) {
                Some(n) => n > usize::MAX,
                None => false,
            },
            Size::Of(n) => chunk_size(bytes@, from as int, to as int) == Some(n as nat),
        },
{
    let stop = find(bytes, 59, from, to);
    if stop == from {
        return Size::Invalid;
    }
    let ghost digits = bytes@.subrange(from as int, stop as int);
    let mut value: usize = 0;
    let mut huge = false;
    let mut i: usize = from;
    while i < stop
        invariant
            from <= i <= stop <= to <= bytes.len(),
            stop == find_byte(bytes@, 59, from as int, to as int),
            from < stop,
            digits == bytes@.subrange(from as int, stop as int),
            forall|k: int| 0 <= k < i - from ==> is_hex(#[trigger] digits[k]),
            !huge ==> value == hex_value(digits.take(i - from)),
            huge ==> hex_value(digits.take(i - from)) > usize::MAX,
        decreases stop - i,
    {
        let d = match hex_digit_of(bytes[i]) {
            Some(d) => d,
            None => {
                assert(digits[i - from] == bytes@[i as int]);
                assert(!is_hex(digits[i - from]));
                return Size::Invalid;
            },
        };
        proof {
            assert(digits[i - from] == bytes@[i as int]);
            assert(digits.take(i + 1 - from).drop_last() =~= digits.take(i - from));
            assert(digits.take(i + 1 - from).last() == bytes@[i as int]);
        }
        if !huge {
            if value > (usize::MAX - d) / 16 {
                huge = true;
            } else {
                value = value * 16 + d;
            }
        }
        i += 1;
    }
    assert(digits.take(i - from) =~= digits);
    if huge {
        Size::Huge
    } else {
        Size::Of(value)
    }
}

/// Reads the body whose chunks start at `from`.
pub fn read_chunked_body(bytes: &[u8], from: usize) -> (body: Scan<Vec<u8>>)
    requires
        from <= bytes.len(),
    ensures
        match body {
            Scan::Done(data) => chunked_body(bytes@, from as int) == Scan::Done(data@),
            Scan::More => chunked_body(bytes@, from as int) == Scan::<Seq<u8>>::More,
            Scan::Bad => chunked_body(bytes@, from as int) == Scan::<Seq<u8>>::Bad,
        },
{
    let mut body: Vec<u8> = Vec::new();
    let mut at: usize = from;
    loop
        invariant
            from <= at <= bytes.len(),
            chunked_body(bytes@, from as int) == body_after(body@, chunked_body(bytes@, at as int)),
        decreases bytes.len() - at,
    {
        let end = find_line_end(bytes, at);
        if end >= bytes.len() {
            return Scan::More;
        }
        proof {
            lemma_line_end(bytes@, at as int);
        }
        let size = match read_chunk_size(bytes, at, end) {
            Size::Invalid => {
                return Scan::Bad;
            },
            Size::Huge => {
                return Scan::More;
            },
            Size::Of(size) => size,
        };
        let data = end + 2;
        if size == 0 {
            assert(body@ + Seq::<u8>::empty() =~= body@);
            return Scan::Done(body);
        }
        if size > bytes.len() - data || bytes.len() - data - size < 2 {
            return Scan::More;
        }
        if !(bytes[data + size] == 13 && bytes[data + size + 1] == 10) {
            return Scan::Bad;
        }
        let ghost before = body@;
        let mut k: usize = 0;
        while k < size
            invariant
                k <= size,
                data + size <= bytes.len(),
                body@ == before + bytes@.subrange(data as int, data + k),
            decreases size - k,
        {
            body.push(bytes[data + k]);
            k += 1;
            assert(body@ =~= before + bytes@.subrange(data as int, data + k));
        }
        proof {
            match chunked_body(bytes@, data + size + 2) {
                Scan::Done(rest) => {
                    assert(before + (bytes@.subrange(data as int, data + size) + rest) =~= body@
                        + rest);
                },
                _ => {},
            }
        }
        at = data + size + 2;
    }
}

} // verus!
