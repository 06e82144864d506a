//! Lines and fields in a byte stream: where a line ends, what a field line
//! holds, and the block of fields that ends with an empty line.

use vstd::prelude::*;
use vstd::utf8::{decode_utf8, valid_utf8};
use crate::headers::{merged, Fields, Headers};
use crate::text::wire;

verus! {

/// The outcome of reading an item from the start of a stream that may not
/// have arrived in full.
#[derive(Debug)]
pub enum Scan<T> {
    /// The bytes so far are the start of an item, and more are needed.
    More,
    /// The bytes cannot be the start of an item.
    Bad,
    /// The item.
    Done(T),
}

/// Whether CR LF stands at `i`.
pub open spec fn is_crlf_at(bytes: Seq<u8>, i: int) -> bool {
    0 <= i && i + 1 < bytes.len() && bytes[i] == 13 && bytes[i + 1] == 10
}

/// The index of the first CR LF at or after `from`, or the length of the
/// bytes if there is none.
pub open spec fn line_end(bytes: Seq<u8>, from: int) -> int
    decreases bytes.len() - from,
{
    if from < 0 || from >= bytes.len() {
        bytes.len() as int
    } else if is_crlf_at(bytes, from) {
        from
    } else {
        line_end(bytes, from + 1)
    }
}

/// The index of the first `b` from `from` up to `to`, or `to` if there is
/// none.
pub open spec fn find_byte(bytes: Seq<u8>, b: u8, from: int, to: int) -> int
    decreases to - from,
{
    if from < 0 || from >= to || to > bytes.len() {
        to
    } else if bytes[from] == b {
        from
    } else {
        find_byte(bytes, b, from + 1, to)
    }
}

/// Whether a byte is a space or a tab.
pub open spec fn is_blank(b: u8) -> bool {
    b == 32 || b == 9
}

/// The index of the first byte from `from` up to `to` that is not blank, or
/// `to` if all are.
pub open spec fn after_blanks(bytes: Seq<u8>, from: int, to: int) -> int
    decreases to - from,
{
    if from < 0 || from >= to || to > bytes.len() {
        to
    } else if !is_blank(bytes[from]) {
        from
    } else {
        after_blanks(bytes, from + 1, to)
    }
}

/// The index behind the last byte from `from` up to `to` that is not
/// blank, or `from` if all are.
pub open spec fn before_blanks(bytes: Seq<u8>, from: int, to: int) -> int
    decreases to - from,
{
    if from < 0 || from >= to || to > bytes.len() {
        from
    } else if !is_blank(bytes[to - 1]) {
        to
    } else {
        before_blanks(bytes, from, to - 1)
    }
}

/// The field that the line from `from` up to `to` holds: the name is what
/// precedes the first colon, the value what follows it without the blanks
/// around it. A line without a colon holds no field.
pub open spec fn raw_field(bytes: Seq<u8>, from: int, to: int) -> Option<(Seq<u8>, Seq<u8>)> {
    let colon = find_byte(bytes, 58, from, to);
    if colon >= to {
        None
    } else {
        let start = after_blanks(bytes, colon + 1, to);
        let end = before_blanks(bytes, start, to);
        Some((bytes.subrange(from, colon), bytes.subrange(start, end)))
    }
}

/// The field that the line from `from` up to `to` holds, as text. A line
/// without a colon holds no field, nor does one whose name or value is not
/// UTF-8.
pub open spec fn text_field(bytes: Seq<u8>, from: int, to: int) -> Option<(Seq<char>, Seq<char>)> {
    match raw_field(bytes, from, to) {
        Some(field) => if valid_utf8(field.0) && valid_utf8(field.1) {
            Some((decode_utf8(field.0), decode_utf8(field.1)))
        } else {
            None
        },
        None => None,
    }
}

/// The block of fields that starts at `from`: one field to a line, up to
/// an empty line. With the fields, in the order of their lines, comes the
/// index behind the empty line.
pub open spec fn field_block(bytes: Seq<u8>, from: int) -> Scan<(Fields, int)>
    decreases bytes.len() - from,
{
    let end = line_end(bytes, from);
    if from < 0 || end < from || end + 2 > bytes.len() {
        Scan::More
    } else if end == from {
        Scan::Done((Seq::empty(), from + 2))
    } else {
        match text_field(bytes, from, end) {
            None => Scan::Bad,
            Some(field) => match field_block(bytes, end + 2) {
                Scan::Done((rest, next)) => Scan::Done((seq![field] + rest, next)),
                Scan::More => Scan::More,
                Scan::Bad => Scan::Bad,
            },
        }
    }
}

/// The field block that starts at `from`, given the one that starts behind
/// some of its lines, which hold `fields`.
pub open spec fn block_after(fields: Fields, rest: Scan<(Fields, int)>) -> Scan<(Fields, int)> {
    match rest {
        Scan::Done((more, next)) => Scan::Done((fields + more, next)),
        Scan::More => Scan::More,
        Scan::Bad => Scan::Bad,
    }
}

/// What `line_end` finds: it lies between `from` and the length, no CR LF
/// stands from `from` up to it, and CR LF stands at it unless it is the
/// length.
pub proof fn lemma_line_end(bytes: Seq<u8>, from: int)
    requires
        0 <= from <= bytes.len(),
    ensures
        from <= line_end(bytes, from) <= bytes.len(),
        forall|k: int| from <= k < line_end(bytes, from) ==> !is_crlf_at(bytes, k),
        line_end(bytes, from) < bytes.len() ==> is_crlf_at(bytes, line_end(bytes, from)),
    decreases bytes.len() - from,
{
    if from < bytes.len() && !is_crlf_at(bytes, from) {
        lemma_line_end(bytes, from + 1);
    }
}

/// The first CR LF at or after `from` is what `line_end` finds.
pub proof fn lemma_line_end_unique(bytes: Seq<u8>, from: int, end: int)
    requires
        0 <= from <= end < bytes.len(),
        forall|k: int| from <= k < end ==> !is_crlf_at(bytes, k),
        is_crlf_at(bytes, end),
    ensures
        line_end(bytes, from) == end,
    decreases end - from,
{
    if from < end {
        lemma_line_end_unique(bytes, from + 1, end);
    }
}

/// What `find_byte` finds.
pub proof fn lemma_find_byte(bytes: Seq<u8>, b: u8, from: int, to: int)
    requires
        0 <= from <= to <= bytes.len(),
    ensures
        from <= find_byte(bytes, b, from, to) <= to,
        forall|k: int| from <= k < find_byte(bytes, b, from, to) ==> bytes[k] != b,
        find_byte(bytes, b, from, to) < to ==> bytes[find_byte(bytes, b, from, to)] == b,
    decreases to - from,
{
    if from < to && bytes[from] != b {
        lemma_find_byte(bytes, b, from + 1, to);
    }
}

/// The first `b` from `from` up to `to` is what `find_byte` finds.
pub proof fn lemma_find_byte_unique(bytes: Seq<u8>, b: u8, from: int, to: int, at: int)
    requires
        0 <= from <= at <= to <= bytes.len(),
        forall|k: int| from <= k < at ==> bytes[k] != b,
        at < to ==> bytes[at] == b,
    ensures
        find_byte(bytes, b, from, to) == at,
    decreases at - from,
{
    if from < at {
        lemma_find_byte_unique(bytes, b, from + 1, to, at);
    }
}

/// The index of the first CR LF at or after `from`, or the length of the
/// bytes.
pub fn find_line_end(bytes: &[u8], from: usize) -> (end: usize)
    requires
        from <= bytes.len(),
    ensures
        end == line_end(bytes@, from as int),
        from <= end <= bytes.len(),
{
    let mut i: usize = from;
    while i < bytes.len()
        invariant
            from <= i <= bytes.len(),
            line_end(bytes@, from as int) == line_end(bytes@, i as int),
        decreases bytes.len() - i,
    {
        if bytes[i] == 13 && i + 1 < bytes.len() && bytes[i + 1] == 10 {
            return i;
        }
        i += 1;
    }
    i
}

/// The index of the first `b` from `from` up to `to`, or `to`.
pub fn find(bytes: &[u8], b: u8, from: usize, to: usize) -> (at: usize)
    requires
        from <= to <= bytes.len(),
    ensures
        at == find_byte(bytes@, b, from as int, to as int),
        from <= at <= to,
{
    let mut i: usize = from;
    while i < to
        invariant
            from <= i <= to <= bytes.len(),
            find_byte(bytes@, b, from as int, to as int) == find_byte(bytes@, b, i as int, to as int),
        decreases to - i,
    {
        if bytes[i] == b {
            return i;
        }
        i += 1;
    }
    i
}

fn skip_blanks(bytes: &[u8], from: usize, to: usize) -> (at: usize)
    requires
        from <= to <= bytes.len(),
    ensures
        at == after_blanks(bytes@, from as int, to as int),
        from <= at <= to,
{
    let mut i: usize = from;
    while i < to
        invariant
            from <= i <= to <= bytes.len(),
            after_blanks(bytes@, from as int, to as int) == after_blanks(
                bytes@,
                i as int,
                to as int,
            ),
        decreases to - i,
    {
        if bytes[i] != 32 && bytes[i] != 9 {
            return i;
        }
        i += 1;
    }
    i
}

fn drop_blanks(bytes: &[u8], from: usize, to: usize) -> (at: usize)
    requires
        from <= to <= bytes.len(),
    ensures
        at == before_blanks(bytes@, from as int, to as int),
        from <= at <= to,
{
    let mut i: usize = to;
    while i > from
        invariant
            from <= i <= to <= bytes.len(),
            before_blanks(bytes@, from as int, to as int) == before_blanks(
                bytes@,
                from as int,
                i as int,
            ),
        decreases i - from,
    {
        if bytes[i - 1] != 32 && bytes[i - 1] != 9 {
            return i;
        }
        i -= 1;
    }
    i
}

/// The bytes from `from` up to `to`.
pub fn copy_range(bytes: &[u8], from: usize, to: usize) -> (part: Vec<u8>)
    requires
        from <= to <= bytes.len(),
    ensures
        part@ == bytes@.subrange(from as int, to as int),
{
    let mut part: Vec<u8> = Vec::new();
    let mut i: usize = from;
    while i < to
        invariant
            from <= i <= to <= bytes.len(),
            part@ == bytes@.subrange(from as int, i as int),
        decreases to - i,
    {
        part.push(bytes[i]);
        i += 1;
        assert(part@ =~= bytes@.subrange(from as int, i as int));
    }
    part
}

/// `String::from_utf8` of std: the text that bytes encode, where they are
/// UTF-8, and nothing where they are not.
#[verifier::external_body]
pub(crate) fn text_of(bytes: Vec<u8>) -> (text: Option<String>)
    ensures
        match text {
            Some(t) => valid_utf8(bytes@) && wire(t@) == bytes@,
            None => !valid_utf8(bytes@),
        },
{
    match String::from_utf8(bytes) {
        Ok(text) => Some(text),
        Err(_) => None,
    }
}

/// Reads the field of the line from `from` up to `to`.
pub fn read_field(bytes: &[u8], from: usize, to: usize) -> (field: Option<(String, String)>)
    requires
        from <= to <= bytes.len(),
    ensures
        match field {
            Some(f) => text_field(bytes@, from as int, to as int) == Some((f.0@, f.1@)),
            None => text_field(bytes@, from as int, to as int).is_none(),
        },
{
    let colon = find(bytes, 58, from, to);
    if colon >= to {
        return None;
    }
    let start = skip_blanks(bytes, colon + 1, to);
    let end = drop_blanks(bytes, start, to);
    let name = match text_of(copy_range(bytes, from, colon)) {
        Some(name) => name,
        None => {
            return None;
        },
    };
    let value = match text_of(copy_range(bytes, start, end)) {
        Some(value) => value,
        None => {
            return None;
        },
    };
    proof {
        vstd::utf8::encode_utf8_decode_utf8(name@);
        vstd::utf8::encode_utf8_decode_utf8(value@);
    }
    Some((name, value))
}

/// Reads the block of fields that starts at `from` into a store, each
/// field given to the store in turn, so that of two fields with one name the
/// second sets the value. With the store comes the index behind the empty
/// line that ends the block.
pub fn read_field_block(bytes: &[u8], from: usize) -> (block: Scan<(Headers, usize)>)
    requires
        from <= bytes.len(),
    ensures
        match block {
            Scan::Done((headers, next)) => match field_block(bytes@, from as int) {
                Scan::Done((fields, end)) => headers@ == merged(Seq::empty(), fields) && next == end
                    && from + 2 <= next <= bytes.len(),
                _ => false,
            },
            Scan::More => field_block(bytes@, from as int) == Scan::<(Fields, int)>::More,
            Scan::Bad => field_block(bytes@, from as int) == Scan::<(Fields, int)>::Bad,
        },
{
    let mut headers = Headers::new();
    let ghost mut seen: Fields = Seq::empty();
    let mut at: usize = from;
    loop
        invariant
            from <= at <= bytes.len(),
            headers@ == merged(Seq::empty(), seen),
            field_block(bytes@, from as int) == block_after(seen, field_block(bytes@, at as int)),
        decreases bytes.len() - at,
    {
        let end = find_line_end(bytes, at);
        if end >= bytes.len() {
            return Scan::More;
        }
        proof {
            lemma_line_end(bytes@, at as int);
        }
        if end == at {
            assert(seen + Seq::<(Seq<char>, Seq<char>)>::empty() =~= seen);
            return Scan::Done((headers, at + 2));
        }
        match read_field(bytes, at, end) {
            Some(field) => {
                headers.insert(field.0.as_str(), field.1.as_str());
                proof {
                    let f = (field.0@, field.1@);
                    let grown = seen.push(f);
                    assert(grown.drop_last() =~= seen);
                    match field_block(bytes@, end + 2) {
                        Scan::Done((rest, next)) => {
                            assert(seen + (seq![f] + rest) =~= grown + rest);
                        },
                        _ => {},
                    }
                    seen = grown;
                }
                at = end + 2;
            },
            None => {
                return Scan::Bad;
            },
        }
    }
}

} // verus!
