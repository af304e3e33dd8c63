//! Encoding and decoding agree: what was encoded parses back, a part of an
//! encoding is never taken for a whole frame, `parse` finds a frame where
//! `check` has found one, and neither fails in a way that is not the
//! codec's own.
use vstd::prelude::*;
use vstd::utf8::*;
use crate::cursor::{after, crlf_at, lemma_find_crlf, line_len, CR};
use crate::decimal::{
    decimal,
    is_digit,
    lemma_decimal,
    lemma_leading_integer_of_decimal,
    signed_decimal,
    MINUS,
};
use crate::error::ErrorKind;
use crate::frame::{
    crlf,
    minus_one,
    spec_check,
    spec_check_array,
    spec_check_bulk,
    spec_check_items,
    spec_decimal_signed,
    spec_decimal_unsigned,
    spec_encode,
    spec_encode_from,
    spec_minus_one,
    spec_parse,
    spec_parse_array,
    spec_parse_bulk,
    spec_parse_items,
    spec_text,
    FrameView,
    ARRAY,
    BULK_STRING,
    INTEGER,
    SIMPLE_ERROR,
    SIMPLE_STRING,
};

verus! {

/// Whether `bytes` holds no line end.
pub open spec fn no_crlf(bytes: Seq<u8>) -> bool {
    forall|i: int| !crlf_at(bytes, i)
}

/// Whether a count can be sent ahead of what it counts and be read back on
/// this machine.
pub open spec fn sendable_len(len: nat) -> bool {
    len <= i64::MAX && len <= usize::MAX
}

/// Whether a frame can go over the wire and come back: its texts hold no
/// line end, and its counts fit.
pub open spec fn wire_safe(f: FrameView) -> bool
    decreases f,
{
    match f {
        FrameView::SimpleString(text) => no_crlf(encode_utf8(text)),
        FrameView::SimpleError(text) => no_crlf(encode_utf8(text)),
        FrameView::BulkString(data) => sendable_len(data.len()),
        FrameView::Array(items) => sendable_len(items.len()) && forall|i: int|
            0 <= i < items.len() ==> wire_safe(#[trigger] items[i]),
        _ => true,
    }
}

/// The frame that comes back when `f` has gone over the wire: the same, but
/// that every null has become the missing bulk string.
pub open spec fn canonical(f: FrameView) -> FrameView
    decreases f,
{
    match f {
        FrameView::Null => FrameView::NullBulkString,
        FrameView::Array(items) => FrameView::Array(
            Seq::new(
                items.len(),
                |i: int|
                    if 0 <= i < items.len() {
                        canonical(items[i])
                    } else {
                        FrameView::Null
                    },
            ),
        ),
        _ => f,
    }
}

/// Whether `p` is the start of `s` and shorter than `s`.
pub open spec fn strict_prefix(p: Seq<u8>, s: Seq<u8>) -> bool {
    p.len() < s.len() && p == s.take(p.len() as int)
}

/// A line without a line end inside it is found whole, whatever follows.
proof fn lemma_line(b: Seq<u8>, rest: Seq<u8>)
    requires
        no_crlf(b),
    ensures
        line_len(b + crlf() + rest) == Some(b.len() as int),
        (b + crlf() + rest).take(b.len() as int) == b,
        after(b + crlf() + rest, b.len() as int + 2) == rest,
{
    let s = b + crlf() + rest;
    let n = b.len() as int;
    lemma_find_crlf(s, 0);
    assert(crlf_at(s, n));
    assert forall|j: int| 0 <= j < n implies !crlf_at(s, j) by {
        if crlf_at(s, j) {
            if j + 1 < n {
                assert(crlf_at(b, j));
            }
        }
    }
}

/// The start of a line, cut off before the line end is whole, holds no line
/// end.
proof fn lemma_no_line(b: Seq<u8>, p: Seq<u8>)
    requires
        no_crlf(b),
        strict_prefix(p, b + crlf()),
    ensures
        line_len(p) is None,
{
    lemma_find_crlf(p, 0);
    assert forall|j: int| 0 <= j implies !crlf_at(p, j) by {
        if crlf_at(p, j) {
            if j + 1 < b.len() {
                assert(crlf_at(b, j));
            }
        }
    }
}

/// Decimal text holds no line end.
proof fn lemma_decimal_no_crlf(v: int)
    ensures
        no_crlf(signed_decimal(v)),
        signed_decimal(v).len() >= 1,
        v >= 0 ==> is_digit(signed_decimal(v)[0]),
{
    let d = signed_decimal(v);
    if v < 0 {
        lemma_decimal((-v) as nat);
    } else {
        lemma_decimal(v as nat);
    }
    assert forall|i: int| !crlf_at(d, i) by {
        if crlf_at(d, i) {
            assert(d[i] == CR);
        }
    }
}

/// A signed count line is read back as the number that was written.
proof fn lemma_signed_line(v: i64, rest: Seq<u8>)
    ensures
        spec_decimal_signed(signed_decimal(v as int) + crlf() + rest) == Ok::<_, ErrorKind>(
            (v, signed_decimal(v as int).len() as int + 2),
        ),
        after(
            signed_decimal(v as int) + crlf() + rest,
            signed_decimal(v as int).len() as int + 2,
        ) == rest,
{
    let d = signed_decimal(v as int);
    lemma_decimal_no_crlf(v as int);
    lemma_line(d, rest);
    lemma_leading_integer_of_decimal(v as int);
}

/// An unsigned count line is read back as the number that was written.
proof fn lemma_unsigned_line(v: u64, rest: Seq<u8>)
    ensures
        spec_decimal_unsigned(decimal(v as nat) + crlf() + rest) == Ok::<_, ErrorKind>(
            (v, decimal(v as nat).len() as int + 2),
        ),
        after(decimal(v as nat) + crlf() + rest, decimal(v as nat).len() as int + 2) == rest,
{
    let d = decimal(v as nat);
    lemma_decimal_no_crlf(v as int);
    lemma_line(d, rest);
    lemma_leading_integer_of_decimal(v as int);
}

/// A line of text is read back as the text that was written.
proof fn lemma_text_line(text: Seq<char>, rest: Seq<u8>)
    requires
        no_crlf(encode_utf8(text)),
    ensures
        spec_text(encode_utf8(text) + crlf() + rest) == Ok::<_, ErrorKind>(
            (text, encode_utf8(text).len() as int + 2),
        ),
        line_len(encode_utf8(text) + crlf() + rest) == Some(encode_utf8(text).len() as int),
{
    let b = encode_utf8(text);
    lemma_line(b, rest);
    encode_utf8_valid_utf8(text);
    encode_utf8_decode_utf8(text);
}

/// The line `-1` is found whole, whatever follows.
proof fn lemma_null_line(rest: Seq<u8>)
    ensures
        spec_minus_one(minus_one() + crlf() + rest) == Ok::<_, ErrorKind>(4int),
        (minus_one() + crlf() + rest)[0] == MINUS,
        (minus_one() + crlf() + rest).len() == 4 + rest.len(),
{
    let b = minus_one();
    lemma_line(b, rest);
}

/// The body of a bulk string, from its count on.
pub open spec fn bulk_body(data: Seq<u8>) -> Seq<u8> {
    decimal(data.len()) + crlf() + data + crlf()
}

/// A bulk string is read back as the bytes that were written.
proof fn lemma_bulk_body(data: Seq<u8>, rest: Seq<u8>)
    requires
        sendable_len(data.len()),
    ensures
        spec_parse_bulk(bulk_body(data) + rest) == Ok::<_, ErrorKind>(
            (FrameView::BulkString(data), bulk_body(data).len() as int),
        ),
        spec_check_bulk(bulk_body(data) + rest) == Ok::<_, ErrorKind>(
            bulk_body(data).len() as int,
        ),
{
    let d = decimal(data.len());
    let t = bulk_body(data) + rest;
    let body = data + crlf() + rest;
    assert(t =~= d + crlf() + body);
    lemma_decimal_no_crlf(data.len() as int);
    lemma_signed_line(data.len() as i64, body);
    lemma_unsigned_line(data.len() as u64, body);
    assert(body.take(data.len() as int) =~= data);
}

/// The body of an array, from its count on.
pub open spec fn array_body(items: Seq<FrameView>) -> Seq<u8> {
    decimal(items.len()) + crlf() + spec_encode_from(items, 0)
}

/// An array is read back as the canonical forms of its items.
proof fn lemma_array_body(items: Seq<FrameView>, rest: Seq<u8>)
    requires
        sendable_len(items.len()),
        forall|i: int| 0 <= i < items.len() ==> wire_safe(#[trigger] items[i]),
    ensures
        spec_parse_array(array_body(items) + rest) == Ok::<_, ErrorKind>(
            (FrameView::Array(canonical_from(items, 0)), array_body(items).len() as int),
        ),
        spec_check_array(array_body(items) + rest) == Ok::<_, ErrorKind>(
            array_body(items).len() as int,
        ),
    decreases items, items.len() + 1,
{
    let d = decimal(items.len());
    let t = array_body(items) + rest;
    let body = spec_encode_from(items, 0) + rest;
    assert(t =~= d + crlf() + body);
    lemma_signed_line(items.len() as i64, body);
    lemma_parse_encode_from(items, 0, rest);
}

/// The missing array is read back as itself.
proof fn lemma_null_array(rest: Seq<u8>)
    ensures
        spec_parse_array(minus_one() + crlf() + rest) == Ok::<_, ErrorKind>(
            (FrameView::NullArray, 4int),
        ),
        spec_check_array(minus_one() + crlf() + rest) == Ok::<_, ErrorKind>(4int),
{
    assert(minus_one() =~= signed_decimal(-1));
    lemma_signed_line(-1i64, rest);
}

/// Whether `f`, followed by `rest`, parses back and measures as it should.
pub open spec fn parses_back(f: FrameView, rest: Seq<u8>) -> bool {
    &&& spec_parse(spec_encode(f) + rest) == Ok::<_, ErrorKind>(
        (canonical(f), spec_encode(f).len() as int),
    )
    &&& spec_check(spec_encode(f) + rest) == Ok::<_, ErrorKind>(spec_encode(f).len() as int)
    &&& spec_encode(f).len() > 0
}

/// A simple string parses back.
proof fn lemma_simple_string_back(text: Seq<char>, rest: Seq<u8>)
    requires
        no_crlf(encode_utf8(text)),
    ensures
        parses_back(FrameView::SimpleString(text), rest),
{
    let s = spec_encode(FrameView::SimpleString(text)) + rest;
    assert(s.skip(1) =~= encode_utf8(text) + crlf() + rest);
    lemma_text_line(text, rest);
}

/// A simple error parses back.
proof fn lemma_simple_error_back(text: Seq<char>, rest: Seq<u8>)
    requires
        no_crlf(encode_utf8(text)),
    ensures
        parses_back(FrameView::SimpleError(text), rest),
{
    let s = spec_encode(FrameView::SimpleError(text)) + rest;
    assert(s.skip(1) =~= encode_utf8(text) + crlf() + rest);
    lemma_text_line(text, rest);
}

/// An integer parses back.
proof fn lemma_integer_back(v: i64, rest: Seq<u8>)
    ensures
        parses_back(FrameView::Integer(v), rest),
{
    let s = spec_encode(FrameView::Integer(v)) + rest;
    assert(s.skip(1) =~= signed_decimal(v as int) + crlf() + rest);
    lemma_signed_line(v, rest);
}

/// A bulk string parses back.
proof fn lemma_bulk_back(data: Seq<u8>, rest: Seq<u8>)
    requires
        sendable_len(data.len()),
    ensures
        parses_back(FrameView::BulkString(data), rest),
{
    let s = spec_encode(FrameView::BulkString(data)) + rest;
    assert(s.skip(1) =~= bulk_body(data) + rest);
    lemma_bulk_body(data, rest);
}

/// Both nulls parse back as the missing bulk string.
proof fn lemma_null_back(f: FrameView, rest: Seq<u8>)
    requires
        f is NullBulkString || f is Null,
    ensures
        parses_back(f, rest),
{
    let s = spec_encode(f) + rest;
    lemma_null_line(rest);
    assert(s.skip(1) =~= minus_one() + crlf() + rest);
}

/// The missing array parses back.
proof fn lemma_null_array_back(rest: Seq<u8>)
    ensures
        parses_back(FrameView::NullArray, rest),
{
    let s = spec_encode(FrameView::NullArray) + rest;
    assert(s.skip(1) =~= minus_one() + crlf() + rest);
    lemma_null_array(rest);
}

/// An array parses back, its items in their canonical forms.
proof fn lemma_array_back(items: Seq<FrameView>, rest: Seq<u8>)
    requires
        sendable_len(items.len()),
        forall|i: int| 0 <= i < items.len() ==> wire_safe(#[trigger] items[i]),
    ensures
        parses_back(FrameView::Array(items), rest),
    decreases items, items.len() + 2,
{
    let f = FrameView::Array(items);
    let s = spec_encode(f) + rest;
    assert(s.skip(1) =~= array_body(items) + rest);
    lemma_array_body(items, rest);
    assert(canonical(f)->Array_0 =~= canonical_from(items, 0));
}

/// What was encoded parses back, whatever follows it in the buffer: the
/// parser yields the canonical form of the frame and takes exactly the bytes
/// of its encoding, and `check` measures the same length.
pub proof fn lemma_parse_encode(f: FrameView, rest: Seq<u8>)
    requires
        wire_safe(f),
    ensures
        parses_back(f, rest),
    decreases f, 0nat,
{
    match f {
        FrameView::SimpleString(text) => lemma_simple_string_back(text, rest),
        FrameView::SimpleError(text) => lemma_simple_error_back(text, rest),
        FrameView::Integer(v) => lemma_integer_back(v, rest),
        FrameView::BulkString(data) => lemma_bulk_back(data, rest),
        FrameView::Array(items) => lemma_array_back(items, rest),
        FrameView::NullBulkString => lemma_null_back(f, rest),
        FrameView::NullArray => lemma_null_array_back(rest),
        FrameView::Null => lemma_null_back(f, rest),
    }
}

/// What the items of `items` from index `from` on come back as.
pub open spec fn canonical_from(items: Seq<FrameView>, from: nat) -> Seq<FrameView> {
    Seq::new(
        (items.len() - from) as nat,
        |i: int|
            if 0 <= i < items.len() - from {
                canonical(items[from + i])
            } else {
                FrameView::Null
            },
    )
}

/// The items of an array parse back one after the other.
proof fn lemma_parse_encode_from(items: Seq<FrameView>, from: nat, rest: Seq<u8>)
    requires
        from <= items.len(),
        forall|i: int| 0 <= i < items.len() ==> wire_safe(#[trigger] items[i]),
    ensures
        spec_parse_items(spec_encode_from(items, from) + rest, (items.len() - from) as nat)
            == Ok::<_, ErrorKind>(
            (canonical_from(items, from), spec_encode_from(items, from).len() as int),
        ),
        spec_check_items(spec_encode_from(items, from) + rest, (items.len() - from) as nat)
            == Ok::<_, ErrorKind>(spec_encode_from(items, from).len() as int),
    decreases items, items.len() - from,
{
    if from < items.len() {
        let first = spec_encode(items[from as int]);
        let tail = spec_encode_from(items, from + 1);
        let s = spec_encode_from(items, from) + rest;
        assert(s =~= first + (tail + rest));
        lemma_parse_encode(items[from as int], tail + rest);
        assert(after(s, first.len() as int) =~= tail + rest);
        lemma_parse_encode_from(items, from + 1, rest);
        assert(seq![canonical(items[from as int])] + canonical_from(items, from + 1)
            =~= canonical_from(items, from));
    } else {
        assert(canonical_from(items, from) =~= Seq::<FrameView>::empty());
    }
}

/// What is left of a strict prefix of `head + body` after `head`, where the
/// prefix reaches past `head`, is a strict prefix of `body`.
proof fn lemma_prefix_after(p: Seq<u8>, head: Seq<u8>, body: Seq<u8>)
    requires
        strict_prefix(p, head + body),
        head.len() <= p.len(),
    ensures
        strict_prefix(p.skip(head.len() as int), body),
        p == head + p.skip(head.len() as int),
{
    let q = p.skip(head.len() as int);
    assert(q =~= body.take(q.len() as int));
}

/// A strict prefix of `head + body` that does not reach past `head` and a
/// line end is a strict prefix of `head` with a line end.
proof fn lemma_prefix_within(p: Seq<u8>, head: Seq<u8>, body: Seq<u8>)
    requires
        strict_prefix(p, head + crlf() + body),
        p.len() < head.len() + 2,
    ensures
        strict_prefix(p, head + crlf()),
{
    assert(p =~= (head + crlf()).take(p.len() as int));
}

/// The start of a line of decimal text, cut off before the line end is
/// whole, is no number yet.
proof fn lemma_signed_line_cut(v: int, p: Seq<u8>)
    requires
        strict_prefix(p, signed_decimal(v) + crlf()),
    ensures
        spec_decimal_signed(p) == Err::<(i64, int), _>(ErrorKind::IncompleteFrame),
        spec_minus_one(p) == Err::<int, _>(ErrorKind::IncompleteFrame),
        p.len() > 0 ==> p[0] == signed_decimal(v)[0],
{
    lemma_decimal_no_crlf(v);
    lemma_no_line(signed_decimal(v), p);
}

/// A simple string or error that is cut short is incomplete.
proof fn lemma_text_cut(f: FrameView, text: Seq<char>, p: Seq<u8>)
    requires
        f == FrameView::SimpleString(text) || f == FrameView::SimpleError(text),
        no_crlf(encode_utf8(text)),
        strict_prefix(p, spec_encode(f)),
    ensures
        spec_check(p) == Err::<int, _>(ErrorKind::IncompleteFrame),
{
    if p.len() > 0 {
        let tag = if f is SimpleString {
            seq![SIMPLE_STRING]
        } else {
            seq![SIMPLE_ERROR]
        };
        assert(spec_encode(f) =~= tag + (encode_utf8(text) + crlf()));
        lemma_prefix_after(p, tag, encode_utf8(text) + crlf());
        lemma_no_line(encode_utf8(text), p.skip(1));
    }
}

/// An integer that is cut short is incomplete.
proof fn lemma_integer_cut(v: i64, p: Seq<u8>)
    requires
        strict_prefix(p, spec_encode(FrameView::Integer(v))),
    ensures
        spec_check(p) == Err::<int, _>(ErrorKind::IncompleteFrame),
{
    if p.len() > 0 {
        let body = signed_decimal(v as int) + crlf();
        assert(spec_encode(FrameView::Integer(v)) =~= seq![INTEGER] + body);
        lemma_prefix_after(p, seq![INTEGER], body);
        lemma_signed_line_cut(v as int, p.skip(1));
    }
}

/// A null or a missing array that is cut short is incomplete.
proof fn lemma_null_cut(f: FrameView, p: Seq<u8>)
    requires
        f is NullBulkString || f is Null || f is NullArray,
        strict_prefix(p, spec_encode(f)),
    ensures
        spec_check(p) == Err::<int, _>(ErrorKind::IncompleteFrame),
{
    if p.len() > 0 {
        let tag = if f is NullArray {
            seq![ARRAY]
        } else {
            seq![BULK_STRING]
        };
        let body = minus_one() + crlf();
        assert(spec_encode(f) =~= tag + body);
        lemma_prefix_after(p, tag, body);
        assert(minus_one() =~= signed_decimal(-1));
        lemma_signed_line_cut(-1, p.skip(1));
    }
}

/// A bulk string that is cut short, in its count or in its payload, is
/// incomplete.
proof fn lemma_bulk_cut(data: Seq<u8>, p: Seq<u8>)
    requires
        sendable_len(data.len()),
        strict_prefix(p, spec_encode(FrameView::BulkString(data))),
    ensures
        spec_check(p) == Err::<int, _>(ErrorKind::IncompleteFrame),
{
    if p.len() > 0 {
        let d = decimal(data.len());
        let payload = data + crlf();
        assert(spec_encode(FrameView::BulkString(data)) =~= seq![BULK_STRING] + (d + crlf()
            + payload));
        lemma_prefix_after(p, seq![BULK_STRING], d + crlf() + payload);
        let t = p.skip(1);
        lemma_decimal_no_crlf(data.len() as int);
        if t.len() < d.len() + 2 {
            lemma_prefix_within(t, d, payload);
            lemma_signed_line_cut(data.len() as int, t);
        } else {
            lemma_prefix_after(t, d + crlf(), payload);
            let q = t.skip(d.len() as int + 2);
            lemma_signed_line(data.len() as i64, q);
        }
    }
}

/// An array that is cut short, in its count or in its items, is
/// incomplete.
proof fn lemma_array_cut(items: Seq<FrameView>, p: Seq<u8>)
    requires
        sendable_len(items.len()),
        forall|i: int| 0 <= i < items.len() ==> wire_safe(#[trigger] items[i]),
        strict_prefix(p, spec_encode(FrameView::Array(items))),
    ensures
        spec_check(p) == Err::<int, _>(ErrorKind::IncompleteFrame),
    decreases items, items.len() + 1,
{
    if p.len() > 0 {
        let d = decimal(items.len());
        let body = spec_encode_from(items, 0);
        assert(spec_encode(FrameView::Array(items)) =~= seq![ARRAY] + (d + crlf() + body));
        lemma_prefix_after(p, seq![ARRAY], d + crlf() + body);
        let t = p.skip(1);
        if t.len() < d.len() + 2 {
            lemma_prefix_within(t, d, body);
            lemma_signed_line_cut(items.len() as int, t);
        } else {
            lemma_prefix_after(t, d + crlf(), body);
            let q = t.skip(d.len() as int + 2);
            lemma_signed_line(items.len() as i64, q);
            lemma_items_cut(items, 0, q);
        }
    }
}

/// Items cut off before the last of them is whole do not pass for all of
/// them.
proof fn lemma_items_cut(items: Seq<FrameView>, from: nat, q: Seq<u8>)
    requires
        from <= items.len(),
        forall|i: int| 0 <= i < items.len() ==> wire_safe(#[trigger] items[i]),
        strict_prefix(q, spec_encode_from(items, from)),
    ensures
        spec_check_items(q, (items.len() - from) as nat) == Err::<int, _>(
            ErrorKind::IncompleteFrame,
        ),
    decreases items, items.len() - from,
{
    let first = spec_encode(items[from as int]);
    let tail = spec_encode_from(items, from + 1);
    if q.len() < first.len() {
        assert(q =~= first.take(q.len() as int));
        lemma_check_cut(items[from as int], q);
    } else {
        lemma_prefix_after(q, first, tail);
        let rest = q.skip(first.len() as int);
        lemma_parse_encode(items[from as int], rest);
        lemma_items_cut(items, from + 1, rest);
    }
}

/// A part of an encoding is never taken for a whole frame, nor for a broken
/// one: `check` asks for more bytes on every strict prefix of what the
/// encoder writes.
pub proof fn lemma_check_cut(f: FrameView, p: Seq<u8>)
    requires
        wire_safe(f),
        strict_prefix(p, spec_encode(f)),
    ensures
        spec_check(p) == Err::<int, _>(ErrorKind::IncompleteFrame),
    decreases f, 0nat,
{
    match f {
        FrameView::SimpleString(text) => lemma_text_cut(f, text, p),
        FrameView::SimpleError(text) => lemma_text_cut(f, text, p),
        FrameView::Integer(v) => lemma_integer_cut(v, p),
        FrameView::BulkString(data) => lemma_bulk_cut(data, p),
        FrameView::Array(items) => lemma_array_cut(items, p),
        FrameView::NullBulkString => lemma_null_cut(f, p),
        FrameView::NullArray => lemma_null_cut(f, p),
        FrameView::Null => lemma_null_cut(f, p),
    }
}

/// Whether parsing `s` either yields a frame of `len` bytes or fails
/// because a text is no UTF-8.
pub open spec fn parses_to_len<T>(parsed: Result<(T, int), ErrorKind>, len: int) -> bool {
    match parsed {
        Ok((_, n)) => n == len,
        Err(e) => e == ErrorKind::Utf8,
    }
}

/// Where `check` has found a whole frame, `parse` finds the same bytes to
/// be the frame: it asks for no more bytes and takes no fewer, and the only
/// way left for it to fail is a text that is no UTF-8, which `check` does
/// not look into.
pub proof fn lemma_parse_after_check(s: Seq<u8>)
    requires
        spec_check(s) is Ok,
    ensures
        parses_to_len(spec_parse(s), spec_check(s)->Ok_0),
    decreases s.len(), 0nat, 0nat,
{
    let t = s.skip(1);
    if s[0] == BULK_STRING {
        lemma_parse_bulk_after_check(t);
    } else if s[0] == ARRAY {
        lemma_parse_array_after_check(t);
    }
}

/// Where `check` has found a whole bulk string, `parse` finds it too.
proof fn lemma_parse_bulk_after_check(t: Seq<u8>)
    requires
        spec_check_bulk(t) is Ok,
    ensures
        parses_to_len(spec_parse_bulk(t), spec_check_bulk(t)->Ok_0),
{
}

/// Where `check` has found a whole array, `parse` finds it too, or a text
/// in it that is no UTF-8.
proof fn lemma_parse_array_after_check(t: Seq<u8>)
    requires
        spec_check_array(t) is Ok,
    ensures
        parses_to_len(spec_parse_array(t), spec_check_array(t)->Ok_0),
    decreases t.len(), 2nat, 0nat,
{
    let (v, c) = spec_decimal_signed(t)->Ok_0;
    if v != -1 {
        lemma_parse_items_after_check(after(t, c), v as nat);
    }
}

/// Where `check` has found so many frames, `parse` finds them too, or a
/// text in them that is no UTF-8.
proof fn lemma_parse_items_after_check(s: Seq<u8>, count: nat)
    requires
        spec_check_items(s, count) is Ok,
    ensures
        parses_to_len(spec_parse_items(s, count), spec_check_items(s, count)->Ok_0),
    decreases s.len(), 1nat, count,
{
    if count > 0 {
        lemma_parse_after_check(s);
        let c = spec_check(s)->Ok_0;
        lemma_parse_items_after_check(after(s, c), (count - 1) as nat);
    }
}

/// Whether `e` is a way for bytes to be no frame, or no frame yet.
pub open spec fn codec_error(e: ErrorKind) -> bool {
    e is IncompleteFrame || e is Protocol || e is Conversion || e is Utf8
}

/// Parsing is total: every byte sequence is a frame, or the start of one,
/// or malformed, and nothing else. `check` fails in the same ways, but for
/// texts, which it does not read.
pub proof fn lemma_codec_errors(s: Seq<u8>)
    ensures
        spec_parse(s) matches Err(e) ==> codec_error(e),
        spec_check(s) matches Err(e) ==> codec_error(e) && !(e is Utf8),
    decreases s.len(), 0nat, 0nat,
{
    if s.len() > 0 && s[0] == ARRAY {
        lemma_array_errors(s.skip(1));
    }
}

/// An array fails as its count or its items do.
proof fn lemma_array_errors(t: Seq<u8>)
    ensures
        spec_parse_array(t) matches Err(e) ==> codec_error(e),
        spec_check_array(t) matches Err(e) ==> codec_error(e) && !(e is Utf8),
    decreases t.len(), 2nat, 0nat,
{
    if spec_decimal_signed(t) is Ok {
        let (v, c) = spec_decimal_signed(t)->Ok_0;
        if v >= 0 {
            lemma_items_errors(after(t, c), v as nat);
        }
    }
}

/// Frames in a row fail as the first of them that fails.
proof fn lemma_items_errors(s: Seq<u8>, count: nat)
    ensures
        spec_parse_items(s, count) matches Err(e) ==> codec_error(e),
        spec_check_items(s, count) matches Err(e) ==> codec_error(e) && !(e is Utf8),
    decreases s.len(), 1nat, count,
{
    if count > 0 {
        lemma_codec_errors(s);
        if spec_parse(s) is Ok {
            lemma_items_errors(after(s, spec_parse(s)->Ok_0.1), (count - 1) as nat);
        }
        if spec_check(s) is Ok {
            lemma_items_errors(after(s, spec_check(s)->Ok_0), (count - 1) as nat);
        }
    }
}

} // verus!
