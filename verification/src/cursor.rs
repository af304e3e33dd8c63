//! A read cursor over a byte buffer, and the primitives the frame codec is
//! built from.
use vstd::prelude::*;
use vstd::slice::*;
use crate::error::Error;

verus! {

/// Carriage return, the first byte of a line end.
pub const CR: u8 = 13;

/// Line feed, the second byte of a line end.
pub const LF: u8 = 10;

/// Whether a line end (CR LF) starts at index `i` of `s`.
pub open spec fn crlf_at(s: Seq<u8>, i: int) -> bool {
    0 <= i && i + 1 < s.len() && s[i] == CR && s[i + 1] == LF
}

/// The index of the first line end in `s` at or after `from`, if there is one.
pub open spec fn find_crlf(s: Seq<u8>, from: int) -> Option<int>
    decreases s.len() - from,
{
    if from < 0 || from + 1 >= s.len() {
        None
    } else if s[from] == CR && s[from + 1] == LF {
        Some(from)
    } else {
        find_crlf(s, from + 1)
    }
}

/// The length of the first line of `s`, its line end not counted; `None`
/// where `s` holds no line end.
pub open spec fn line_len(s: Seq<u8>) -> Option<int> {
    find_crlf(s, 0)
}

/// What `find_crlf` finds is the first line end at or after `from`.
pub proof fn lemma_find_crlf(s: Seq<u8>, from: int)
    requires
        0 <= from,
    ensures
        match find_crlf(s, from) {
            Some(i) => from <= i && crlf_at(s, i) && forall|j: int| from <= j < i ==> !crlf_at(s, j),
            None => forall|j: int| from <= j ==> !crlf_at(s, j),
        },
    decreases s.len() - from,
{
    if from + 1 < s.len() && !(s[from] == CR && s[from + 1] == LF) {
        lemma_find_crlf(s, from + 1);
    }
}

/// `s` without its first `n` bytes; nothing where `n` is out of range.
pub open spec fn after(s: Seq<u8>, n: int) -> Seq<u8> {
    if 0 <= n <= s.len() {
        s.skip(n)
    } else {
        Seq::empty()
    }
}

/// A position in a borrowed byte buffer. The position may lie past the end
/// of the buffer; nothing remains to be read then.
pub struct Cursor<'a> {
    data: &'a [u8],
    pos: usize,
}

impl<'a> Cursor<'a> {
    /// The whole buffer under the cursor.
    pub closed spec fn data(&self) -> Seq<u8> {
        self.data@
    }

    /// The index of the next byte to read.
    pub closed spec fn pos(&self) -> nat {
        self.pos as nat
    }

    /// The bytes that have not been read yet.
    pub open spec fn rest(&self) -> Seq<u8> {
        if self.pos() <= self.data().len() {
            self.data().skip(self.pos() as int)
        } else {
            Seq::empty()
        }
    }

    /// A cursor at the start of `data`.
    pub fn new(data: &'a [u8]) -> (c: Self)
        ensures
            c.data() == data@,
            c.pos() == 0,
    {
        Cursor { data, pos: 0 }
    }

    /// The index of the next byte to read.
    pub fn position(&self) -> (p: usize)
        ensures
            p == self.pos(),
    {
        self.pos
    }

    /// Moves the cursor to index `pos` of the buffer.
    pub fn set_position(&mut self, pos: usize)
        ensures
            final(self).data() == old(self).data(),
            final(self).pos() == pos,
    {
        self.pos = pos;
    }

    /// The whole buffer under the cursor.
    pub fn get_ref(&self) -> (data: &'a [u8])
        ensures
            data@ == self.data(),
    {
        self.data
    }

    /// How many bytes have not been read yet.
    pub fn remaining(&self) -> (n: usize)
        ensures
            n == self.rest().len(),
    {
        if self.pos <= self.data.len() {
            self.data.len() - self.pos
        } else {
            0
        }
    }

    /// Whether any byte has not been read yet.
    pub fn has_remaining(&self) -> (b: bool)
        ensures
            b == (self.rest().len() > 0),
    {
        self.pos < self.data.len()
    }
}

/// Reads one byte and steps over it. Fails with `IncompleteFrame`, and
/// leaves the cursor alone, where no byte is left.
pub fn get_u8(src: &mut Cursor) -> (r: Result<u8, Error>)
    ensures
        final(src).data() == old(src).data(),
        match r {
            Ok(b) => {
                &&& old(src).rest().len() > 0
                &&& b == old(src).rest()[0]
                &&& final(src).pos() == old(src).pos() + 1
                &&& final(src).rest() == old(src).rest().skip(1)
            },
            Err(e) => {
                &&& old(src).rest().len() == 0
                &&& e is IncompleteFrame
                &&& final(src).pos() == old(src).pos()
            },
        },
{
    if !src.has_remaining() {
        return Err(Error::IncompleteFrame);
    }
    let b: u8 = src.data[src.pos];
    src.pos = src.pos + 1;
    Ok(b)
}

/// Reads one byte without stepping over it. Fails with `IncompleteFrame`
/// where no byte is left.
pub fn peek_u8(src: &mut Cursor) -> (r: Result<u8, Error>)
    ensures
        final(src).data() == old(src).data(),
        final(src).pos() == old(src).pos(),
        match r {
            Ok(b) => old(src).rest().len() > 0 && b == old(src).rest()[0],
            Err(e) => old(src).rest().len() == 0 && e is IncompleteFrame,
        },
{
    if !src.has_remaining() {
        return Err(Error::IncompleteFrame);
    }
    Ok(src.data[src.pos])
}

/// Steps over `n` bytes. Fails with `IncompleteFrame`, and leaves the cursor
/// alone, where fewer than `n` bytes are left.
pub fn skip(src: &mut Cursor, n: usize) -> (r: Result<(), Error>)
    ensures
        final(src).data() == old(src).data(),
        match r {
            Ok(_) => {
                &&& n <= old(src).rest().len()
                &&& final(src).pos() == old(src).pos() + n
                &&& final(src).rest() == old(src).rest().skip(n as int)
            },
            Err(e) => {
                &&& n > old(src).rest().len()
                &&& e is IncompleteFrame
                &&& final(src).pos() == old(src).pos()
            },
        },
{
    if src.remaining() < n {
        return Err(Error::IncompleteFrame);
    }
    let len: usize = src.data.len();
    assert(src.pos + n <= len || n == 0);
    src.pos = src.pos + n;
    Ok(())
}

/// Reads up to the next line end and steps over the line and its end. The
/// line comes back without its end. Fails with `IncompleteFrame`, and leaves
/// the cursor alone, where no line end is left.
pub fn get_line<'a>(src: &mut Cursor<'a>) -> (r: Result<&'a [u8], Error>)
    ensures
        final(src).data() == old(src).data(),
        match r {
            Ok(line) => {
                &&& line_len(old(src).rest()) == Some(line@.len() as int)
                &&& line@ == old(src).rest().take(line@.len() as int)
                &&& final(src).pos() == old(src).pos() + line@.len() + 2
                &&& line@.len() + 2 <= old(src).rest().len()
                &&& final(src).rest() == old(src).rest().skip(line@.len() as int + 2)
            },
            Err(e) => {
                &&& line_len(old(src).rest()) is None
                &&& e is IncompleteFrame
                &&& final(src).pos() == old(src).pos()
            },
        },
{
    let start: usize = src.pos;
    let len: usize = src.data.len();
    if start >= len {
        return Err(Error::IncompleteFrame);
    }
    let ghost rest = src.rest();
    let mut i: usize = start;
    while i + 1 < len
        invariant
            *src == *old(src),
            start <= i < len,
            len == src.data@.len(),
            start == src.pos,
            rest == src.rest(),
            find_crlf(rest, 0) == find_crlf(rest, i - start),
        decreases len - i,
    {
        if src.data[i] == CR && src.data[i + 1] == LF {
            let line = slice_subrange(src.data, start, i);
            src.pos = i + 2;
            return Ok(line);
        }
        i = i + 1;
    }
    Err(Error::IncompleteFrame)
}

} // verus!
