//! RESP frames and their wire format: what a byte sequence means as a frame,
//! and the functions that check, parse and encode.
use vstd::prelude::*;
use vstd::slice::*;
use vstd::utf8::*;
use vstd::std_specs::vec::axiom_vec_index_decreases;
use bytes::Bytes;
use crate::buf::bytes_view;
use crate::cursor::{after, crlf_at, get_line, get_u8, line_len, peek_u8, skip, Cursor, CR, LF};
use crate::decimal::{
    atoi_i64,
    atoi_u64,
    decimal,
    decimal_string,
    leading_i64,
    leading_u64,
    push_decimal,
    push_signed_decimal,
    signed_decimal,
    MINUS,
};
use crate::error::{Error, ErrorKind};
use crate::text::{debug_frame, debug_slice, quoted};

verus! {

/// The first byte of a simple string, `+`.
pub const SIMPLE_STRING: u8 = 43;

/// The first byte of a simple error, `-`.
pub const SIMPLE_ERROR: u8 = 45;

/// The first byte of an integer, `:`.
pub const INTEGER: u8 = 58;

/// The first byte of a bulk string, `$`.
pub const BULK_STRING: u8 = 36;

/// The first byte of an array, `*`.
pub const ARRAY: u8 = 42;

/// The first byte of a null, `_`.
pub const NULL: u8 = 95;

/// A frame of the Redis serialization protocol.
#[derive(Debug, PartialEq, Eq)]
pub enum Frame {
    /// One line of text.
    SimpleString(String),
    /// One line of error text.
    SimpleError(String),
    /// A signed 64-bit integer.
    Integer(i64),
    /// Any bytes, with their count sent ahead.
    BulkString(Bytes),
    /// Frames in order, with their count sent ahead.
    Array(Vec<Frame>),
    /// The missing bulk string, `$-1`.
    NullBulkString,
    /// The missing array, `*-1`.
    NullArray,
    /// The null of the protocol's third version, `_`.
    Null,
}

/// What a frame holds, as mathematical values.
pub enum FrameView {
    SimpleString(Seq<char>),
    SimpleError(Seq<char>),
    Integer(i64),
    BulkString(Seq<u8>),
    Array(Seq<FrameView>),
    NullBulkString,
    NullArray,
    Null,
}

/// What a frame holds, with what its items hold in their order.
pub open spec fn frame_view(frame: Frame) -> FrameView
    decreases frame,
{
    match frame {
        Frame::SimpleString(s) => FrameView::SimpleString(s@),
        Frame::SimpleError(s) => FrameView::SimpleError(s@),
        Frame::Integer(v) => FrameView::Integer(v),
        Frame::BulkString(b) => FrameView::BulkString(bytes_view(b)),
        Frame::Array(items) => FrameView::Array(
            Seq::new(
                items@.len(),
                |i: int|
                    if 0 <= i < items@.len() {
                        frame_view(items@[i])
                    } else {
                        FrameView::Null
                    },
            ),
        ),
        Frame::NullBulkString => FrameView::NullBulkString,
        Frame::NullArray => FrameView::NullArray,
        Frame::Null => FrameView::Null,
    }
}

impl View for Frame {
    type V = FrameView;

    open spec fn view(&self) -> FrameView {
        frame_view(*self)
    }
}

/// What each of `frames` holds.
pub open spec fn frame_views(frames: Seq<Frame>) -> Seq<FrameView> {
    Seq::new(frames.len(), |i: int| frames[i]@)
}

/// An array frame holds what its items hold, in order.
pub proof fn lemma_array_view(items: Vec<Frame>)
    ensures
        Frame::Array(items)@ == FrameView::Array(frame_views(items@)),
{
    reveal_with_fuel(frame_view, 2);
    assert(Frame::Array(items)@->Array_0 =~= frame_views(items@));
}

/// A line end: carriage return, line feed.
pub open spec fn crlf() -> Seq<u8> {
    seq![CR, LF]
}

/// The line `-1`, which stands for a missing bulk string or array.
pub open spec fn minus_one() -> Seq<u8> {
    seq![MINUS, 49u8]
}

/// A decimal line at the start of `s`, read as a signed number: the number
/// and how many bytes the line takes with its end.
pub open spec fn spec_decimal_signed(s: Seq<u8>) -> Result<(i64, int), ErrorKind> {
    match line_len(s) {
        None => Err(ErrorKind::IncompleteFrame),
        Some(n) => match leading_i64(s.take(n)) {
            Some(v) => Ok((v, n + 2)),
            None => Err(ErrorKind::Protocol),
        },
    }
}

/// A decimal line at the start of `s`, read as an unsigned number: the
/// number and how many bytes the line takes with its end.
pub open spec fn spec_decimal_unsigned(s: Seq<u8>) -> Result<(u64, int), ErrorKind> {
    match line_len(s) {
        None => Err(ErrorKind::IncompleteFrame),
        Some(n) => match leading_u64(s.take(n)) {
            Some(v) => Ok((v, n + 2)),
            None => Err(ErrorKind::Protocol),
        },
    }
}

/// A line of text at the start of `s`: the text it holds as UTF-8 and how
/// many bytes the line takes with its end.
pub open spec fn spec_text(s: Seq<u8>) -> Result<(Seq<char>, int), ErrorKind> {
    match line_len(s) {
        None => Err(ErrorKind::IncompleteFrame),
        Some(n) => if valid_utf8(s.take(n)) {
            Ok((decode_utf8(s.take(n)), n + 2))
        } else {
            Err(ErrorKind::Utf8)
        },
    }
}

/// A payload of `len` bytes at the start of `s`, closed by a line end: how
/// many bytes it takes with the line end.
pub open spec fn spec_payload(s: Seq<u8>, len: int) -> Result<int, ErrorKind> {
    if s.len() < len + 2 {
        Err(ErrorKind::IncompleteFrame)
    } else if !crlf_at(s, len) {
        Err(ErrorKind::Protocol)
    } else {
        Ok(len + 2)
    }
}

/// The line `-1` at the start of `s`: how many bytes it takes with its end.
pub open spec fn spec_minus_one(s: Seq<u8>) -> Result<int, ErrorKind> {
    match line_len(s) {
        None => Err(ErrorKind::IncompleteFrame),
        Some(n) => if s.take(n) == minus_one() {
            Ok(n + 2)
        } else {
            Err(ErrorKind::Protocol)
        },
    }
}

/// An empty line at the start of `s`: how many bytes it takes with its end.
pub open spec fn spec_empty_line(s: Seq<u8>) -> Result<int, ErrorKind> {
    match line_len(s) {
        None => Err(ErrorKind::IncompleteFrame),
        Some(n) => if n != 0 {
            Err(ErrorKind::Protocol)
        } else {
            Ok(2)
        },
    }
}

/// How many bytes the frame at the start of `s` takes. Texts are measured,
/// not read: whether they hold UTF-8 is left open.
pub open spec fn spec_check(s: Seq<u8>) -> Result<int, ErrorKind>
    decreases s.len(), 0nat, 0nat,
{
    if s.len() == 0 {
        Err(ErrorKind::IncompleteFrame)
    } else {
        let t = s.skip(1);
        let body = if s[0] == SIMPLE_STRING || s[0] == SIMPLE_ERROR {
            match line_len(t) {
                None => Err(ErrorKind::IncompleteFrame),
                Some(n) => Ok(n + 2),
            }
        } else if s[0] == INTEGER {
            match spec_decimal_signed(t) {
                Err(e) => Err(e),
                Ok((_, c)) => Ok(c),
            }
        } else if s[0] == BULK_STRING {
            spec_check_bulk(t)
        } else if s[0] == ARRAY {
            spec_check_array(t)
        } else if s[0] == NULL {
            spec_empty_line(t)
        } else {
            Err(ErrorKind::Protocol)
        };
        match body {
            Err(e) => Err(e),
            Ok(c) => Ok(1 + c),
        }
    }
}

/// How many bytes a bulk string takes after its first byte.
pub open spec fn spec_check_bulk(t: Seq<u8>) -> Result<int, ErrorKind> {
    if t.len() == 0 {
        Err(ErrorKind::IncompleteFrame)
    } else if t[0] == MINUS {
        spec_minus_one(t)
    } else {
        match spec_decimal_signed(t) {
            Err(e) => Err(e),
            Ok((v, c)) => if v < 0 || v > usize::MAX {
                Err(ErrorKind::Conversion)
            } else {
                match spec_payload(after(t, c), v as int) {
                    Err(e) => Err(e),
                    Ok(k) => Ok(c + k),
                }
            },
        }
    }
}

/// How many bytes an array takes after its first byte.
pub open spec fn spec_check_array(t: Seq<u8>) -> Result<int, ErrorKind>
    decreases t.len(), 2nat, 0nat,
{
    match spec_decimal_signed(t) {
        Err(e) => Err(e),
        Ok((v, c)) => if v == -1 {
            Ok(c)
        } else if v < 0 || v > usize::MAX {
            Err(ErrorKind::Conversion)
        } else {
            match spec_check_items(after(t, c), v as nat) {
                Err(e) => Err(e),
                Ok(k) => Ok(c + k),
            }
        },
    }
}

/// How many bytes the `count` frames at the start of `s` take together.
pub open spec fn spec_check_items(s: Seq<u8>, count: nat) -> Result<int, ErrorKind>
    decreases s.len(), 1nat, count,
{
    if count == 0 {
        Ok(0)
    } else {
        match spec_check(s) {
            Err(e) => Err(e),
            Ok(c) => match spec_check_items(after(s, c), (count - 1) as nat) {
                Err(e) => Err(e),
                Ok(k) => Ok(c + k),
            },
        }
    }
}

/// The frame at the start of `s` and how many bytes it takes.
pub open spec fn spec_parse(s: Seq<u8>) -> Result<(FrameView, int), ErrorKind>
    decreases s.len(), 0nat, 0nat,
{
    if s.len() == 0 {
        Err(ErrorKind::IncompleteFrame)
    } else {
        let t = s.skip(1);
        let body = if s[0] == SIMPLE_STRING {
            match spec_text(t) {
                Err(e) => Err(e),
                Ok((text, c)) => Ok((FrameView::SimpleString(text), c)),
            }
        } else if s[0] == SIMPLE_ERROR {
            match spec_text(t) {
                Err(e) => Err(e),
                Ok((text, c)) => Ok((FrameView::SimpleError(text), c)),
            }
        } else if s[0] == INTEGER {
            match spec_decimal_signed(t) {
                Err(e) => Err(e),
                Ok((v, c)) => Ok((FrameView::Integer(v), c)),
            }
        } else if s[0] == BULK_STRING {
            spec_parse_bulk(t)
        } else if s[0] == ARRAY {
            spec_parse_array(t)
        } else if s[0] == NULL {
            match spec_empty_line(t) {
                Err(e) => Err(e),
                Ok(c) => Ok((FrameView::Null, c)),
            }
        } else {
            Err(ErrorKind::Protocol)
        };
        match body {
            Err(e) => Err(e),
            Ok((frame, c)) => Ok((frame, 1 + c)),
        }
    }
}

/// The bulk string whose first byte has been read, and how many bytes it
/// takes after that byte.
pub open spec fn spec_parse_bulk(t: Seq<u8>) -> Result<(FrameView, int), ErrorKind> {
    if t.len() == 0 {
        Err(ErrorKind::IncompleteFrame)
    } else if t[0] == MINUS {
        match spec_minus_one(t) {
            Err(e) => Err(e),
            Ok(c) => Ok((FrameView::NullBulkString, c)),
        }
    } else {
        match spec_decimal_unsigned(t) {
            Err(e) => Err(e),
            Ok((v, c)) => if v > usize::MAX {
                Err(ErrorKind::Conversion)
            } else {
                match spec_payload(after(t, c), v as int) {
                    Err(e) => Err(e),
                    Ok(k) => Ok((FrameView::BulkString(after(t, c).take(v as int)), c + k)),
                }
            },
        }
    }
}

/// The array whose first byte has been read, and how many bytes it takes
/// after that byte.
pub open spec fn spec_parse_array(t: Seq<u8>) -> Result<(FrameView, int), ErrorKind>
    decreases t.len(), 2nat, 0nat,
{
    match spec_decimal_signed(t) {
        Err(e) => Err(e),
        Ok((v, c)) => if v == -1 {
            Ok((FrameView::NullArray, c))
        } else if v < 0 || v > usize::MAX {
            Err(ErrorKind::Conversion)
        } else {
            match spec_parse_items(after(t, c), v as nat) {
                Err(e) => Err(e),
                Ok((items, k)) => Ok((FrameView::Array(items), c + k)),
            }
        },
    }
}

/// The `count` frames at the start of `s` and how many bytes they take
/// together.
pub open spec fn spec_parse_items(s: Seq<u8>, count: nat) -> Result<
    (Seq<FrameView>, int),
    ErrorKind,
>
    decreases s.len(), 1nat, count,
{
    if count == 0 {
        Ok((Seq::empty(), 0))
    } else {
        match spec_parse(s) {
            Err(e) => Err(e),
            Ok((first, c)) => match spec_parse_items(after(s, c), (count - 1) as nat) {
                Err(e) => Err(e),
                Ok((rest, k)) => Ok((seq![first] + rest, c + k)),
            },
        }
    }
}

/// The bytes that stand for a frame on the wire. Both nulls are written as
/// the missing bulk string.
pub open spec fn spec_encode(f: FrameView) -> Seq<u8>
    decreases f, 0nat,
{
    match f {
        FrameView::SimpleString(text) => seq![SIMPLE_STRING] + encode_utf8(text) + crlf(),
        FrameView::SimpleError(text) => seq![SIMPLE_ERROR] + encode_utf8(text) + crlf(),
        FrameView::Integer(v) => seq![INTEGER] + signed_decimal(v as int) + crlf(),
        FrameView::BulkString(data) => seq![BULK_STRING] + decimal(data.len()) + crlf() + data
            + crlf(),
        FrameView::Array(items) => seq![ARRAY] + decimal(items.len()) + crlf() + spec_encode_from(
            items,
            0,
        ),
        FrameView::NullBulkString => seq![BULK_STRING] + minus_one() + crlf(),
        FrameView::NullArray => seq![ARRAY] + minus_one() + crlf(),
        FrameView::Null => seq![BULK_STRING] + minus_one() + crlf(),
    }
}

/// The bytes that stand for the frames of `items` from index `from` on, one
/// after the other.
pub open spec fn spec_encode_from(items: Seq<FrameView>, from: nat) -> Seq<u8>
    decreases items, items.len() - from,
{
    if from >= items.len() {
        Seq::empty()
    } else {
        spec_encode(items[from as int]) + spec_encode_from(items, from + 1)
    }
}

/// The error of a line that spells no number, and of a payload that no
/// line end closes: a protocol error that says so.
fn invalid_format() -> (e: Error)
    ensures
        e matches Error::Protocol(msg) && msg@ == "invalid frame format"@,
{
    Error::Protocol(String::from_str("invalid frame format"))
}

/// Reads a line and the signed decimal number it starts with. Fails with
/// `IncompleteFrame` where no line end is left, with `Protocol` where the
/// line starts with no number that fits.
pub fn get_decimal_signed(src: &mut Cursor) -> (r: Result<i64, Error>)
    ensures
        final(src).data() == old(src).data(),
        match r {
            Ok(v) => {
                &&& spec_decimal_signed(old(src).rest()) matches Ok((w, c))
                &&& v == w
                &&& 2 <= c <= old(src).rest().len()
                &&& final(src).pos() == old(src).pos() + c
                &&& final(src).rest() == old(src).rest().skip(c)
            },
            Err(e) => spec_decimal_signed(old(src).rest()) == Err::<(i64, int), _>(e.kind()),
        },
{
    let line = get_line(src)?;
    match atoi_i64(line) {
        Some(v) => Ok(v),
        None => Err(invalid_format()),
    }
}

/// Reads a line and the unsigned decimal number it starts with. Fails with
/// `IncompleteFrame` where no line end is left, with `Protocol` where the
/// line starts with no number that fits.
pub fn get_decimal_unsigned(src: &mut Cursor) -> (r: Result<u64, Error>)
    ensures
        final(src).data() == old(src).data(),
        match r {
            Ok(v) => {
                &&& spec_decimal_unsigned(old(src).rest()) matches Ok((w, c))
                &&& v == w
                &&& 2 <= c <= old(src).rest().len()
                &&& final(src).pos() == old(src).pos() + c
                &&& final(src).rest() == old(src).rest().skip(c)
            },
            Err(e) => spec_decimal_unsigned(old(src).rest()) == Err::<(u64, int), _>(e.kind()),
        },
{
    let line = get_line(src)?;
    match atoi_u64(line) {
        Some(v) => Ok(v),
        None => Err(invalid_format()),
    }
}

/// Reads the line `-1`.
fn get_minus_one(src: &mut Cursor) -> (r: Result<(), Error>)
    ensures
        final(src).data() == old(src).data(),
        match r {
            Ok(_) => {
                &&& spec_minus_one(old(src).rest()) matches Ok(c)
                &&& 2 <= c <= old(src).rest().len()
                &&& final(src).pos() == old(src).pos() + c
                &&& final(src).rest() == old(src).rest().skip(c)
            },
            Err(e) => spec_minus_one(old(src).rest()) == Err::<int, _>(e.kind()),
        },
{
    let line = get_line(src)?;
    let matches = line.len() == 2 && line[0] == MINUS && line[1] == 49u8;
    assert(matches <==> line@ =~= minus_one());
    if !matches {
        return Err(
            Error::Protocol(
                quoted(
                    "invalid frame format, only valid negative length is -1, got `",
                    debug_slice(line),
                ),
            ),
        );
    }
    Ok(())
}

/// Reads a line that must be empty.
fn get_empty_line(src: &mut Cursor) -> (r: Result<(), Error>)
    ensures
        final(src).data() == old(src).data(),
        match r {
            Ok(_) => {
                &&& spec_empty_line(old(src).rest()) matches Ok(c)
                &&& 2 <= c <= old(src).rest().len()
                &&& final(src).pos() == old(src).pos() + c
                &&& final(src).rest() == old(src).rest().skip(c)
            },
            Err(e) => spec_empty_line(old(src).rest()) == Err::<int, _>(e.kind()),
        },
{
    let line = get_line(src)?;
    if line.len() != 0 {
        return Err(
            Error::Protocol(
                quoted(
                    "invalid `null` data type frame format, frame contained bytes `",
                    debug_slice(line),
                ),
            ),
        );
    }
    Ok(())
}

/// Reads a line of text, which must hold UTF-8.
fn get_text(src: &mut Cursor) -> (r: Result<String, Error>)
    ensures
        final(src).data() == old(src).data(),
        match r {
            Ok(text) => {
                &&& spec_text(old(src).rest()) matches Ok((t, c))
                &&& text@ == t
                &&& 2 <= c <= old(src).rest().len()
                &&& final(src).pos() == old(src).pos() + c
                &&& final(src).rest() == old(src).rest().skip(c)
            },
            Err(e) => spec_text(old(src).rest()) == Err::<(Seq<char>, int), _>(e.kind()),
        },
{
    let line = get_line(src)?;
    match String::from_utf8(slice_to_vec(line)) {
        Ok(text) => Ok(text),
        Err(e) => Err(Error::Utf8(e)),
    }
}

/// Looks for a payload of `len` bytes under the cursor and for the line end
/// behind it, without moving the cursor.
fn check_payload(src: &Cursor, len: usize) -> (r: Result<(), Error>)
    ensures
        match r {
            Ok(_) => {
                &&& spec_payload(src.rest(), len as int) == Ok::<int, ErrorKind>(len + 2)
                &&& src.pos() + len + 2 <= src.data().len() <= usize::MAX
            },
            Err(e) => spec_payload(src.rest(), len as int) == Err::<int, _>(e.kind()),
        },
{
    let data = src.get_ref();
    let total: usize = data.len();
    let start: usize = src.position();
    if total < start || total - start < 2 || total - start - 2 < len {
        return Err(Error::IncompleteFrame);
    }
    let at: usize = start + len;
    if data[at] != CR || data[at + 1] != LF {
        return Err(invalid_format());
    }
    Ok(())
}

/// Appends `data` to `out`.
fn push_bytes(out: &mut Vec<u8>, data: &[u8])
    ensures
        final(out)@ == old(out)@ + data@,
{
    out.extend_from_slice(data);
}

/// Appends a line end to `out`.
fn push_crlf(out: &mut Vec<u8>)
    ensures
        final(out)@ == old(out)@ + crlf(),
{
    out.push(CR);
    out.push(LF);
}

impl Frame {
    /// Looks for one whole frame under the cursor without building it, and
    /// steps over it. Fails with `IncompleteFrame` where the buffer ends
    /// before the frame does, and with another error where the bytes are no
    /// frame.
    pub fn check(src: &mut Cursor) -> (r: Result<(), Error>)
        ensures
            final(src).data() == old(src).data(),
            match r {
                Ok(_) => {
                    &&& spec_check(old(src).rest()) matches Ok(n)
                    &&& 0 < n <= old(src).rest().len()
                    &&& final(src).pos() == old(src).pos() + n
                    &&& final(src).rest() == old(src).rest().skip(n)
                },
                Err(e) => spec_check(old(src).rest()) == Err::<int, _>(e.kind()),
            },
        decreases old(src).rest().len(), 0nat,
    {
        let first: u8 = get_u8(src)?;
        if first == SIMPLE_STRING || first == SIMPLE_ERROR {
            let _ = get_line(src)?;
        } else if first == INTEGER {
            let _ = get_decimal_signed(src)?;
        } else if first == BULK_STRING {
            Self::check_bulk(src)?;
        } else if first == ARRAY {
            Self::check_array(src)?;
        } else if first == NULL {
            get_empty_line(src)?;
        } else {
            return Err(
                Error::Protocol(quoted("invalid frame byte `", decimal_string(first as u128))),
            );
        }
        Ok(())
    }

    /// Steps over a bulk string whose first byte has been read.
    fn check_bulk(src: &mut Cursor) -> (r: Result<(), Error>)
        ensures
            final(src).data() == old(src).data(),
            match r {
                Ok(_) => {
                    &&& spec_check_bulk(old(src).rest()) matches Ok(n)
                    &&& 0 < n <= old(src).rest().len()
                    &&& final(src).pos() == old(src).pos() + n
                    &&& final(src).rest() == old(src).rest().skip(n)
                },
                Err(e) => spec_check_bulk(old(src).rest()) == Err::<int, _>(e.kind()),
            },
    {
        if peek_u8(src)? == MINUS {
            get_minus_one(src)
        } else {
            let len: i64 = get_decimal_signed(src)?;
            let len: usize = match usize::try_from(len) {
                Ok(n) => n,
                Err(e) => {
                    return Err(Error::Conversion(e));
                },
            };
            check_payload(src, len)?;
            skip(src, len + 2)?;
            Ok(())
        }
    }

    /// Steps over an array whose first byte has been read.
    fn check_array(src: &mut Cursor) -> (r: Result<(), Error>)
        ensures
            final(src).data() == old(src).data(),
            match r {
                Ok(_) => {
                    &&& spec_check_array(old(src).rest()) matches Ok(n)
                    &&& 0 < n <= old(src).rest().len()
                    &&& final(src).pos() == old(src).pos() + n
                    &&& final(src).rest() == old(src).rest().skip(n)
                },
                Err(e) => spec_check_array(old(src).rest()) == Err::<int, _>(e.kind()),
            },
        decreases old(src).rest().len(), 1nat,
    {
        let ghost t = src.rest();
        let len: i64 = get_decimal_signed(src)?;
        if len == -1 {
            return Ok(());
        }
        let count: usize = match usize::try_from(len) {
            Ok(n) => n,
            Err(e) => {
                return Err(Error::Conversion(e));
            },
        };
        let mut i: usize = 0;
        while i < count
            invariant
                src.data() == old(src).data(),
                t == old(src).rest(),
                i <= count,
                old(src).pos() < src.pos(),
                src.pos() - old(src).pos() <= t.len(),
                src.rest() == t.skip(src.pos() - old(src).pos()),
                match spec_check_items(src.rest(), (count - i) as nat) {
                    Ok(k) => spec_check_array(t) == Ok::<int, ErrorKind>(
                        src.pos() - old(src).pos() + k,
                    ),
                    Err(e) => spec_check_array(t) == Err::<int, _>(e),
                },
            decreases count - i,
        {
            Frame::check(src)?;
            i = i + 1;
        }
        Ok(())
    }

    /// Builds the frame under the cursor and steps over it. Fails with
    /// `IncompleteFrame` where the buffer ends before the frame does, and
    /// with another error where the bytes are no frame.
    pub fn parse(src: &mut Cursor) -> (r: Result<Frame, Error>)
        ensures
            final(src).data() == old(src).data(),
            match r {
                Ok(frame) => {
                    &&& spec_parse(old(src).rest()) matches Ok((f, n))
                    &&& frame@ == f
                    &&& 0 < n <= old(src).rest().len()
                    &&& final(src).pos() == old(src).pos() + n
                    &&& final(src).rest() == old(src).rest().skip(n)
                },
                Err(e) => spec_parse(old(src).rest()) == Err::<(FrameView, int), _>(e.kind()),
            },
        decreases old(src).rest().len(), 0nat,
    {
        let first: u8 = get_u8(src)?;
        let frame = if first == SIMPLE_STRING {
            Frame::SimpleString(get_text(src)?)
        } else if first == SIMPLE_ERROR {
            Frame::SimpleError(get_text(src)?)
        } else if first == INTEGER {
            Frame::Integer(get_decimal_signed(src)?)
        } else if first == BULK_STRING {
            Self::parse_bulk(src)?
        } else if first == ARRAY {
            Self::parse_array(src)?
        } else if first == NULL {
            get_empty_line(src)?;
            Frame::Null
        } else {
            return Err(
                Error::Protocol(
                    quoted(
                        "first byte was not a valid RESP data type `",
                        decimal_string(first as u128),
                    ),
                ),
            );
        };
        Ok(frame)
    }

    /// Builds a bulk string whose first byte has been read.
    fn parse_bulk(src: &mut Cursor) -> (r: Result<Frame, Error>)
        ensures
            final(src).data() == old(src).data(),
            match r {
                Ok(frame) => {
                    &&& spec_parse_bulk(old(src).rest()) matches Ok((f, n))
                    &&& frame@ == f
                    &&& 0 < n <= old(src).rest().len()
                    &&& final(src).pos() == old(src).pos() + n
                    &&& final(src).rest() == old(src).rest().skip(n)
                },
                Err(e) => spec_parse_bulk(old(src).rest()) == Err::<(FrameView, int), _>(e.kind()),
            },
    {
        if peek_u8(src)? == MINUS {
            get_minus_one(src)?;
            Ok(Frame::NullBulkString)
        } else {
            let len: u64 = get_decimal_unsigned(src)?;
            let len: usize = match usize::try_from(len) {
                Ok(n) => n,
                Err(e) => {
                    return Err(Error::Conversion(e));
                },
            };
            check_payload(src, len)?;
            let start: usize = src.position();
            let ghost body = src.rest();
            let data = Bytes::copy_from_slice(slice_subrange(src.get_ref(), start, start + len));
            assert(bytes_view(data) =~= body.take(len as int));
            skip(src, len + 2)?;
            Ok(Frame::BulkString(data))
        }
    }

    /// Builds an array whose first byte has been read.
    fn parse_array(src: &mut Cursor) -> (r: Result<Frame, Error>)
        ensures
            final(src).data() == old(src).data(),
            match r {
                Ok(frame) => {
                    &&& spec_parse_array(old(src).rest()) matches Ok((f, n))
                    &&& frame@ == f
                    &&& 0 < n <= old(src).rest().len()
                    &&& final(src).pos() == old(src).pos() + n
                    &&& final(src).rest() == old(src).rest().skip(n)
                },
                Err(e) => spec_parse_array(old(src).rest()) == Err::<(FrameView, int), _>(
                    e.kind(),
                ),
            },
        decreases old(src).rest().len(), 1nat,
    {
        let ghost t = src.rest();
        let len: i64 = get_decimal_signed(src)?;
        if len == -1 {
            return Ok(Frame::NullArray);
        }
        let count: usize = match usize::try_from(len) {
            Ok(n) => n,
            Err(e) => {
                return Err(Error::Conversion(e));
            },
        };
        let mut out: Vec<Frame> = Vec::new();
        let mut i: usize = 0;
        while i < count
            invariant
                src.data() == old(src).data(),
                t == old(src).rest(),
                i <= count,
                out@.len() == i,
                old(src).pos() < src.pos(),
                src.pos() - old(src).pos() <= t.len(),
                src.rest() == t.skip(src.pos() - old(src).pos()),
                match spec_parse_items(src.rest(), (count - i) as nat) {
                    Ok((rest, k)) => spec_parse_array(t) == Ok::<_, ErrorKind>(
                        (
                            FrameView::Array(frame_views(out@) + rest),
                            src.pos() - old(src).pos() + k,
                        ),
                    ),
                    Err(e) => spec_parse_array(t) == Err::<(FrameView, int), _>(e),
                },
            decreases count - i,
        {
            let ghost before = out@;
            let item = Frame::parse(src)?;
            out.push(item);
            proof {
                let step = spec_parse_items(src.rest(), (count - i - 1) as nat);
                if step is Ok {
                    assert(frame_views(before) + (seq![item@] + step->Ok_0.0) =~= frame_views(out@)
                        + step->Ok_0.0);
                }
            }
            i = i + 1;
        }
        proof {
            lemma_array_view(out);
        }
        Ok(Frame::Array(out))
    }

    /// Appends the bytes that stand for the frame on the wire to `out`.
    /// Arrays are written with all that they hold, however deep.
    pub fn encode(&self, out: &mut Vec<u8>)
        ensures
            final(out)@ == old(out)@ + spec_encode(self@),
        decreases self,
    {
        match self {
            Frame::SimpleString(text) => {
                out.push(SIMPLE_STRING);
                push_bytes(out, text.as_str().as_bytes());
                push_crlf(out);
            },
            Frame::SimpleError(text) => {
                out.push(SIMPLE_ERROR);
                push_bytes(out, text.as_str().as_bytes());
                push_crlf(out);
            },
            Frame::Integer(v) => {
                out.push(INTEGER);
                push_signed_decimal(out, *v);
                push_crlf(out);
            },
            Frame::BulkString(data) => {
                out.push(BULK_STRING);
                push_decimal(out, data.len() as u128);
                push_crlf(out);
                push_bytes(out, data);
                push_crlf(out);
            },
            Frame::Array(items) => {
                out.push(ARRAY);
                push_decimal(out, items.len() as u128);
                push_crlf(out);
                let ghost views = frame_views(items@);
                proof {
                    lemma_array_view(*items);
                }
                let mut i: usize = 0;
                while i < items.len()
                    invariant
                        self == Frame::Array(*items),
                        views == frame_views(items@),
                        i <= items@.len(),
                        out@ + spec_encode_from(views, i as nat) == old(out)@ + spec_encode(
                            self@,
                        ),
                    decreases items@.len() - i,
                {
                    proof {
                        axiom_vec_index_decreases(*items, i as int);
                    }
                    items[i].encode(out);
                    i = i + 1;
                }
            },
            Frame::NullBulkString => {
                out.push(BULK_STRING);
                out.push(MINUS);
                out.push(49u8);
                push_crlf(out);
            },
            Frame::NullArray => {
                out.push(ARRAY);
                out.push(MINUS);
                out.push(49u8);
                push_crlf(out);
            },
            Frame::Null => {
                out.push(BULK_STRING);
                out.push(MINUS);
                out.push(49u8);
                push_crlf(out);
            },
        }
    }

    /// An array that holds nothing yet.
    pub fn array() -> (frame: Self)
        ensures
            frame@ == FrameView::Array(Seq::empty()),
    {
        let frame = Frame::Array(Vec::new());
        assert(frame@->Array_0 =~= Seq::<FrameView>::empty());
        frame
    }

    /// Adds a bulk string to the end of an array. Fails with
    /// `WrongFrameType`, and changes nothing, where the frame is no array.
    pub fn push_bulk(&mut self, bytes: Bytes) -> (r: Result<(), Error>)
        ensures
            match r {
                Ok(_) => {
                    &&& old(self)@ matches FrameView::Array(items)
                    &&& final(self)@ == FrameView::Array(
                        items.push(FrameView::BulkString(bytes_view(bytes))),
                    )
                },
                Err(e) => {
                    &&& !(old(self)@ is Array)
                    &&& e is WrongFrameType
                    &&& *final(self) == *old(self)
                },
            },
    {
        self.push_item(Frame::BulkString(bytes))
    }

    /// Adds an integer to the end of an array. Fails with `WrongFrameType`,
    /// and changes nothing, where the frame is no array.
    pub fn push_int(&mut self, value: i64) -> (r: Result<(), Error>)
        ensures
            match r {
                Ok(_) => {
                    &&& old(self)@ matches FrameView::Array(items)
                    &&& final(self)@ == FrameView::Array(items.push(FrameView::Integer(value)))
                },
                Err(e) => {
                    &&& !(old(self)@ is Array)
                    &&& e is WrongFrameType
                    &&& *final(self) == *old(self)
                },
            },
    {
        self.push_item(Frame::Integer(value))
    }

    /// Adds `item` to the end of an array.
    fn push_item(&mut self, item: Frame) -> (r: Result<(), Error>)
        ensures
            match r {
                Ok(_) => {
                    &&& old(self)@ matches FrameView::Array(items)
                    &&& final(self)@ == FrameView::Array(items.push(item@))
                },
                Err(e) => {
                    &&& !(old(self)@ is Array)
                    &&& e is WrongFrameType
                    &&& *final(self) == *old(self)
                },
            },
    {
        match self {
            Frame::Array(items) => {
                let ghost before = *items;
                items.push(item);
                proof {
                    lemma_array_view(before);
                    lemma_array_view(*items);
                    assert(frame_views(items@) =~= frame_views(before@).push(item@));
                }
                Ok(())
            },
            other => Err(
                Error::WrongFrameType(
                    String::from_str("cannot push to non-array frame type, type was ").concat(
                        debug_frame(other).as_str(),
                    ),
                ),
            ),
        }
    }
}

impl Clone for Frame {
    /// A copy that holds the same values. The copy of a bulk string shares
    /// the payload with the frame it was copied from.
    fn clone(&self) -> (copy: Self)
        ensures
            copy@ == self@,
        decreases self,
    {
        match self {
            Frame::SimpleString(s) => Frame::SimpleString(s.clone()),
            Frame::SimpleError(s) => Frame::SimpleError(s.clone()),
            Frame::Integer(v) => Frame::Integer(*v),
            Frame::BulkString(b) => Frame::BulkString(b.clone()),
            Frame::Array(items) => {
                let mut copies: Vec<Frame> = Vec::new();
                let mut i: usize = 0;
                while i < items.len()
                    invariant
                        self == Frame::Array(*items),
                        i <= items@.len(),
                        copies@.len() == i,
                        forall|j: int| 0 <= j < i ==> copies@[j]@ == items@[j]@,
                    decreases items@.len() - i,
                {
                    proof {
                        assert(decreases_to!(*self => self->Array_0));
                        axiom_vec_index_decreases(*items, i as int);
                    }
                    let copy = items[i].clone();
                    copies.push(copy);
                    i = i + 1;
                }
                let copy = Frame::Array(copies);
                assert(copy@->Array_0 =~= self@->Array_0);
                copy
            },
            Frame::NullBulkString => Frame::NullBulkString,
            Frame::NullArray => Frame::NullArray,
            Frame::Null => Frame::Null,
        }
    }
}

} // verus!
