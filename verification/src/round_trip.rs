//! What is sent is what is read: a request comes back from its bytes.

use vstd::prelude::*;
use vstd::utf8::{encode_utf8_decode_utf8, encode_utf8_valid_utf8, is_ascii_chars_encode_utf8};
use crate::headers::{distinct_names, lemma_merged_distinct, Fields};
use crate::lines::{
    after_blanks, before_blanks, field_block, find_byte, is_blank, is_crlf_at,
    lemma_find_byte_unique, lemma_line_end_unique, line_end, text_field, Scan,
};
use crate::method::Method;
use crate::parse::{request_in, request_line_parts, text_in, RequestPartsView};
use crate::request::{field_line, field_lines, request_line_of, RequestView};
use crate::text::{
    lacks, lacks_byte, lacks_crlf, lacks_line_break, lemma_char_eq, lemma_lacks_crlf_concat,
    lemma_wire_concat, lemma_wire_first, lemma_wire_lacks, lemma_wire_lacks_crlf,
    lemma_wire_last, wire,
};
use crate::version::Version;

verus! {

/// Whether a character is a space or a tab.
pub open spec fn is_blank_char(c: char) -> bool {
    c == ' ' || c == '\t'
}

/// A target that a request line can carry: it holds no space, and no CR
/// followed by LF.
pub open spec fn sendable_target(target: Seq<char>) -> bool {
    lacks(target, ' ') && lacks_line_break(target)
}

/// A name that a field line can carry: it holds no colon, and no CR
/// followed by LF.
pub open spec fn sendable_name(name: Seq<char>) -> bool {
    lacks(name, ':') && lacks_line_break(name)
}

/// A value that a field line can carry: it neither starts nor ends with a
/// space or a tab, and holds no CR followed by LF.
pub open spec fn sendable_value(value: Seq<char>) -> bool {
    &&& lacks_line_break(value)
    &&& value.len() > 0 ==> !is_blank_char(value[0]) && !is_blank_char(value.last())
}

/// Fields that lines can carry.
pub open spec fn sendable_fields(fields: Fields) -> bool {
    forall|i: int|
        0 <= i < fields.len() ==> sendable_name((#[trigger] fields[i]).0) && sendable_value(
            fields[i].1,
        )
}

/// Whether `part` stands in `bytes` at `at`.
pub open spec fn holds_at(bytes: Seq<u8>, at: int, part: Seq<u8>) -> bool {
    0 <= at && at + part.len() <= bytes.len() && bytes.subrange(at, at + part.len()) == part
}

proof fn lemma_holds_at_concat(bytes: Seq<u8>, at: int, a: Seq<u8>, b: Seq<u8>)
    requires
        holds_at(bytes, at, a + b),
    ensures
        holds_at(bytes, at, a),
        holds_at(bytes, at + a.len(), b),
{
    let whole = bytes.subrange(at, at + (a + b).len());
    assert(bytes.subrange(at, at + a.len()) =~= whole.subrange(0, a.len() as int));
    assert((a + b).subrange(0, a.len() as int) =~= a);
    assert(bytes.subrange(at + a.len(), at + a.len() + b.len()) =~= whole.subrange(
        a.len() as int,
        (a + b).len() as int,
    ));
    assert((a + b).subrange(a.len() as int, (a + b).len() as int) =~= b);
}

proof fn lemma_holds_at_index(bytes: Seq<u8>, at: int, part: Seq<u8>, k: int)
    requires
        holds_at(bytes, at, part),
        0 <= k < part.len(),
    ensures
        bytes[at + k] == part[k],
{
    assert(bytes.subrange(at, at + part.len())[k] == bytes[at + k]);
}

/// The wire images of the texts that stand between the parts of a message.
proof fn lemma_separators()
    ensures
        wire(" "@) == seq![32u8],
        wire(": "@) == seq![58u8, 32u8],
        wire("\r\n"@) == seq![13u8, 10u8],
{
    reveal_strlit(" ");
    reveal_strlit(": ");
    reveal_strlit("\r\n");
    is_ascii_chars_encode_utf8(" "@);
    is_ascii_chars_encode_utf8(": "@);
    is_ascii_chars_encode_utf8("\r\n"@);
    assert(wire(" "@) =~= seq![32u8]);
    assert(wire(": "@) =~= seq![58u8, 32u8]);
    assert(wire("\r\n"@) =~= seq![13u8, 10u8]);
}

/// Where a part without CR LF stands before CR LF, the line ends behind
/// the part.
proof fn lemma_line_end_after(bytes: Seq<u8>, at: int, part: Seq<u8>)
    requires
        holds_at(bytes, at, part),
        lacks_crlf(part),
        is_crlf_at(bytes, at + part.len()),
    ensures
        line_end(bytes, at) == at + part.len(),
{
    let end = at + part.len();
    assert forall|k: int| at <= k < end implies !is_crlf_at(bytes, k) by {
        lemma_holds_at_index(bytes, at, part, k - at);
        if k + 1 < end {
            lemma_holds_at_index(bytes, at, part, k + 1 - at);
            assert(!(part[k - at] == 13 && part[k - at + 1] == 10));
        }
    }
    lemma_line_end_unique(bytes, at, end);
}

/// Where a part without `b` stands before `b`, the first `b` is the one
/// behind the part.
proof fn lemma_find_after(bytes: Seq<u8>, b: u8, from: int, to: int, part: Seq<u8>)
    requires
        holds_at(bytes, from, part),
        lacks_byte(part, b),
        from + part.len() < to <= bytes.len(),
        bytes[from + part.len()] == b,
    ensures
        find_byte(bytes, b, from, to) == from + part.len(),
{
    assert forall|k: int| from <= k < from + part.len() implies bytes[k] != b by {
        lemma_holds_at_index(bytes, from, part, k - from);
    }
    lemma_find_byte_unique(bytes, b, from, to, from + part.len());
}

/// Bytes that are the wire image of a text are read as that text.
proof fn lemma_text_in_wire(text: Seq<char>)
    ensures
        text_in(wire(text)) == Some(text),
{
    encode_utf8_valid_utf8(text);
    encode_utf8_decode_utf8(text);
}

/// The tokens of methods and versions hold neither a space nor CR or LF.
proof fn lemma_tokens_plain(method: Method, version: Version)
    ensures
        lacks_byte(wire(method.token()), 32),
        lacks_crlf(wire(method.token())),
        lacks_crlf(wire(version.token())),
{
    reveal_strlit("GET");
    reveal_strlit("HEAD");
    reveal_strlit("POST");
    reveal_strlit("PUT");
    reveal_strlit("DELETE");
    reveal_strlit("CONNECT");
    reveal_strlit("OPTIONS");
    reveal_strlit("TRACE");
    reveal_strlit("PATCH");
    reveal_strlit("HTTP/1.0");
    reveal_strlit("HTTP/1.1");
    let m = method.token();
    let v = version.token();
    assert(lacks(m, ' '));
    assert(lacks(m, '\r'));
    assert(lacks(v, '\r'));
    lemma_wire_lacks(m, ' ');
    lemma_wire_lacks(m, '\r');
    lemma_wire_lacks(v, '\r');
    assert(lacks_byte(wire(m), 13));
    assert(lacks_byte(wire(v), 13));
}

/// The wire image of a field line, part by part.
proof fn lemma_field_line_wire(name: Seq<char>, value: Seq<char>)
    ensures
        wire(field_line((name, value))) == wire(name) + seq![58u8, 32u8] + wire(value) + seq![
            13u8,
            10u8,
        ],
{
    lemma_separators();
    lemma_wire_concat(name, ": "@);
    lemma_wire_concat(name + ": "@, value);
    lemma_wire_concat(name + ": "@ + value, "\r\n"@);
}

/// A sendable field is read back from its line.
proof fn lemma_field_line(bytes: Seq<u8>, at: int, name: Seq<char>, value: Seq<char>)
    requires
        sendable_name(name),
        sendable_value(value),
        holds_at(bytes, at, wire(field_line((name, value)))),
    ensures
        line_end(bytes, at) == at + wire(field_line((name, value))).len() - 2,
        line_end(bytes, at) > at,
        text_field(bytes, at, line_end(bytes, at)) == Some((name, value)),
{
    let n = wire(name);
    let v = wire(value);
    let sep = seq![58u8, 32u8];
    let brk = seq![13u8, 10u8];
    let line = wire(field_line((name, value)));
    lemma_field_line_wire(name, value);
    assert(line == n + sep + v + brk);
    lemma_holds_at_concat(bytes, at, n + sep + v, brk);
    lemma_holds_at_concat(bytes, at, n + sep, v);
    lemma_holds_at_concat(bytes, at, n, sep);
    let colon = at + n.len();
    let start = colon + 2;
    let end = start + v.len();
    lemma_holds_at_index(bytes, colon, sep, 0);
    lemma_holds_at_index(bytes, colon, sep, 1);
    lemma_holds_at_index(bytes, end, brk, 0);
    lemma_holds_at_index(bytes, end, brk, 1);
    // the line ends behind the value
    lemma_wire_lacks_crlf(name);
    lemma_wire_lacks_crlf(value);
    assert(lacks_crlf(sep));
    lemma_lacks_crlf_concat(n, sep);
    lemma_lacks_crlf_concat(n + sep, v);
    lemma_line_end_after(bytes, at, n + sep + v);
    // the first colon is the one behind the name
    lemma_wire_lacks(name, ':');
    lemma_find_after(bytes, 58, at, end, n);
    // the value starts behind the space and ends where the line ends
    if value.len() > 0 {
        lemma_wire_first(value);
        lemma_wire_last(value);
        lemma_holds_at_index(bytes, start, v, 0);
        lemma_holds_at_index(bytes, start, v, v.len() - 1);
        if is_blank(v[0]) {
            lemma_char_eq(value[0], if v[0] == 32 { ' ' } else { '\t' });
        }
        if is_blank(v.last()) {
            lemma_char_eq(value.last(), if v.last() == 32 { ' ' } else { '\t' });
        }
        assert(after_blanks(bytes, colon + 1, end) == start) by {
            reveal_with_fuel(after_blanks, 2);
        }
        assert(before_blanks(bytes, start, end) == end);
    } else {
        assert(v.len() == 0) by {
            assert(wire(value) =~= Seq::<u8>::empty());
        }
        assert(after_blanks(bytes, colon + 1, end) == start) by {
            reveal_with_fuel(after_blanks, 2);
        }
        assert(before_blanks(bytes, start, end) == start);
    }
    assert(bytes.subrange(at, colon) == n);
    assert(bytes.subrange(start, end) == v);
    lemma_text_in_wire(name);
    lemma_text_in_wire(value);
}

/// The lines of fields are the line of the first field and then the lines
/// of the others.
proof fn lemma_field_lines_front(fields: Fields)
    requires
        fields.len() > 0,
    ensures
        field_lines(fields) == field_line(fields[0]) + field_lines(fields.drop_first()),
    decreases fields.len(),
{
    if fields.len() == 1 {
        let before = fields.drop_last();
        let after = fields.drop_first();
        assert(before.len() == 0 && after.len() == 0);
        assert(field_lines(before) == Seq::<char>::empty());
        assert(field_lines(after) == Seq::<char>::empty());
        assert(fields.last() == fields[0]);
        assert(field_lines(fields) == field_lines(before) + field_line(fields.last()));
        assert(field_lines(before) + field_line(fields[0]) =~= field_line(fields[0]));
        assert(field_line(fields[0]) + field_lines(after) =~= field_line(fields[0]));
    } else {
        lemma_field_lines_front(fields.drop_last());
        assert(fields.drop_last().drop_first() =~= fields.drop_first().drop_last());
        assert(fields.drop_first().last() == fields.last());
        assert(fields.drop_last()[0] == fields[0]);
        assert(field_lines(fields) =~= field_line(fields[0]) + field_lines(fields.drop_first()));
    }
}

/// Sendable fields are read back from their lines and the empty line
/// behind them.
proof fn lemma_field_block(bytes: Seq<u8>, at: int, fields: Fields)
    requires
        sendable_fields(fields),
        holds_at(bytes, at, wire(field_lines(fields)) + seq![13u8, 10u8]),
    ensures
        field_block(bytes, at) == Scan::Done((fields, at + wire(field_lines(fields)).len() + 2)),
    decreases fields.len(),
{
    let brk = seq![13u8, 10u8];
    let lines = wire(field_lines(fields));
    lemma_holds_at_concat(bytes, at, lines, brk);
    if fields.len() == 0 {
        assert(lines =~= Seq::<u8>::empty());
        lemma_holds_at_index(bytes, at, brk, 0);
        lemma_holds_at_index(bytes, at, brk, 1);
        assert(is_crlf_at(bytes, at));
        assert(line_end(bytes, at) == at);
        assert(fields =~= Seq::empty());
    } else {
        let first = fields[0];
        let rest = fields.drop_first();
        lemma_field_lines_front(fields);
        lemma_wire_concat(field_line(first), field_lines(rest));
        let head = wire(field_line(first));
        let tail = wire(field_lines(rest));
        assert(lines + brk =~= head + (tail + brk));
        lemma_holds_at_concat(bytes, at, head, tail + brk);
        lemma_field_line(bytes, at, first.0, first.1);
        assert forall|i: int| 0 <= i < rest.len() implies sendable_name((#[trigger] rest[i]).0)
            && sendable_value(rest[i].1) by {
            assert(rest[i] == fields[i + 1]);
        }
        lemma_field_block(bytes, at + head.len(), rest);
        assert(seq![first] + rest =~= fields);
        assert(lines.len() == head.len() + tail.len());
        assert(line_end(bytes, at) + 2 == at + head.len());
        assert(text_field(bytes, at, line_end(bytes, at)) == Some(first));
    }
}

/// The wire image of a request line, part by part.
proof fn lemma_request_line_wire(method: Method, target: Seq<char>, version: Version)
    ensures
        wire(request_line_of(method, target, version)) == wire(method.token()) + seq![32u8] + wire(
            target,
        ) + seq![32u8] + wire(version.token()) + seq![13u8, 10u8],
{
    lemma_separators();
    let m = method.token();
    let v = version.token();
    lemma_wire_concat(m, " "@);
    lemma_wire_concat(m + " "@, target);
    lemma_wire_concat(m + " "@ + target, " "@);
    lemma_wire_concat(m + " "@ + target + " "@, v);
    lemma_wire_concat(m + " "@ + target + " "@ + v, "\r\n"@);
}

/// A request line with a sendable target is read back.
proof fn lemma_request_line(bytes: Seq<u8>, method: Method, target: Seq<char>, version: Version)
    requires
        sendable_target(target),
        holds_at(bytes, 0, wire(request_line_of(method, target, version))),
    ensures
        line_end(bytes, 0) == wire(request_line_of(method, target, version)).len() - 2,
        request_line_parts(bytes, line_end(bytes, 0)) == Some((method, target, version)),
{
    let m = wire(method.token());
    let t = wire(target);
    let v = wire(version.token());
    let sp = seq![32u8];
    let brk = seq![13u8, 10u8];
    lemma_request_line_wire(method, target, version);
    let line = m + sp + t + sp + v;
    lemma_holds_at_concat(bytes, 0, line, brk);
    lemma_holds_at_concat(bytes, 0, m + sp + t + sp, v);
    lemma_holds_at_concat(bytes, 0, m + sp + t, sp);
    lemma_holds_at_concat(bytes, 0, m + sp, t);
    lemma_holds_at_concat(bytes, 0, m, sp);
    let end = line.len() as int;
    let first = m.len() as int;
    let second = first + 1 + t.len();
    lemma_holds_at_index(bytes, end, brk, 0);
    lemma_holds_at_index(bytes, end, brk, 1);
    lemma_holds_at_index(bytes, first, sp, 0);
    lemma_holds_at_index(bytes, second, sp, 0);
    // the line ends behind the version
    lemma_tokens_plain(method, version);
    lemma_wire_lacks_crlf(target);
    assert(lacks_crlf(sp));
    lemma_lacks_crlf_concat(m, sp);
    lemma_lacks_crlf_concat(m + sp, t);
    lemma_lacks_crlf_concat(m + sp + t, sp);
    lemma_lacks_crlf_concat(m + sp + t + sp, v);
    assert(is_crlf_at(bytes, end));
    lemma_line_end_after(bytes, 0, line);
    // the spaces stand behind the method and behind the target
    lemma_find_after(bytes, 32, 0, end, m);
    lemma_wire_lacks(target, ' ');
    lemma_find_after(bytes, 32, first + 1, end, t);
    assert(bytes.subrange(0, first) == m);
    assert(bytes.subrange(first + 1, second) == t);
    assert(bytes.subrange(second + 1, end) == v);
    lemma_text_in_wire(method.token());
    lemma_text_in_wire(target);
    lemma_text_in_wire(version.token());
    method.lemma_token_round_trip();
    version.lemma_token_round_trip();
}

/// A request whose target and fields are sendable is read back from the
/// bytes that it is sent as: the same method, target and version, the same
/// fields in the same order, and the same body.
pub proof fn lemma_round_trip(request: RequestView)
    requires
        sendable_target(request.target),
        sendable_fields(request.fields),
        distinct_names(request.fields),
    ensures
        request_in(request.message()) == Some(
            RequestPartsView {
                method: request.method,
                target: request.target,
                version: request.version,
                fields: request.fields,
                body: request.body_bytes(),
            },
        ),
{
    lemma_separators();
    let bytes = request.message();
    let first_line = request_line_of(request.method, request.target, request.version);
    let line = wire(first_line);
    let lines = wire(field_lines(request.fields));
    let brk = seq![13u8, 10u8];
    let body = request.body_bytes();
    lemma_wire_concat(first_line, field_lines(request.fields));
    lemma_wire_concat(first_line + field_lines(request.fields), "\r\n"@);
    assert(bytes =~= line + (lines + brk) + body);
    assert(bytes.subrange(0, bytes.len() as int) =~= bytes);
    assert(holds_at(bytes, 0, line + (lines + brk) + body));
    lemma_holds_at_concat(bytes, 0, line + (lines + brk), body);
    lemma_holds_at_concat(bytes, 0, line, lines + brk);
    lemma_request_line(bytes, request.method, request.target, request.version);
    let end = line.len() - 2;
    lemma_field_block(bytes, end + 2, request.fields);
    lemma_merged_distinct(request.fields);
    let start = end + 2 + lines.len() + 2;
    assert(bytes.skip(start) =~= body);
}

} // verus!
