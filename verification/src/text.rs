//! Text as the protocol needs it: UTF-8 decoding, case folding, and the
//! rendering of values inside error messages. All of it is std's work; this
//! module says what the library relies on.
use vstd::prelude::*;
use vstd::utf8::*;
use std::string::FromUtf8Error;
use crate::frame::Frame;

verus! {

/// `String::from_utf8` succeeds exactly on well-formed UTF-8, and the string
/// then holds the characters that the bytes encode.
pub assume_specification[ String::from_utf8 ](bytes: Vec<u8>) -> (r: Result<String, FromUtf8Error>)
    ensures
        match r {
            Ok(s) => valid_utf8(bytes@) && s@ == decode_utf8(bytes@),
            Err(_) => !valid_utf8(bytes@),
        },
;

/// The upper-case form that Unicode gives a text. One character may become
/// several.
pub uninterp spec fn uppercase(text: Seq<char>) -> Seq<char>;

/// `str::to_uppercase` returns the upper-case form of the text as a new
/// string.
pub assume_specification[ str::to_uppercase ](s: &str) -> (r: String)
    ensures
        r@ == uppercase(s@),
;

/// Renders a byte slice with `{:?}`, for use inside a message.
#[verifier::external_body]
pub(crate) fn debug_slice(bytes: &[u8]) -> String {
    format!("{bytes:?}")
}

/// Renders a frame with `{:?}`, for use inside a message.
#[verifier::external_body]
pub(crate) fn debug_frame(frame: &Frame) -> String {
    format!("{frame:?}")
}

/// Renders the reason why bytes are no UTF-8 with `{}`.
#[verifier::external_body]
pub(crate) fn display_utf8_error(error: &FromUtf8Error) -> String {
    format!("{error}")
}

/// Whether `a` and `b` hold the same text.
pub fn same_text(a: &str, b: &str) -> (r: bool)
    ensures
        r == (a@ == b@),
{
    let x = a.as_bytes();
    let y = b.as_bytes();
    proof {
        encode_utf8_decode_utf8(a@);
        encode_utf8_decode_utf8(b@);
    }
    if x.len() != y.len() {
        return false;
    }
    let mut i: usize = 0;
    while i < x.len()
        invariant
            x@ == encode_utf8(a@),
            y@ == encode_utf8(b@),
            x@.len() == y@.len(),
            i <= x@.len(),
            x@.take(i as int) == y@.take(i as int),
        decreases x@.len() - i,
    {
        if x[i] != y[i] {
            return false;
        }
        i = i + 1;
    }
    assert(x@ =~= x@.take(i as int) && y@ =~= y@.take(i as int));
    true
}

/// The message `head`, then `value`, then a closing backquote.
pub(crate) fn quoted(head: &str, value: String) -> (msg: String)
    ensures
        msg@ == head@ + value@ + "`"@,
{
    let mut msg = String::from_str(head);
    msg.append(value.as_str());
    msg.append("`");
    msg
}

} // verus!
