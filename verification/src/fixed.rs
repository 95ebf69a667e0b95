//! Contracts for the fixed-capacity containers of the `heapless` crate that
//! the calculator keeps its text in: a byte buffer of 64 entries and a
//! UTF-8 string of 64 bytes.
use vstd::prelude::*;

verus! {

/// Capacity, in entries, of the byte buffers and, in bytes, of the strings.
pub const CAPACITY: usize = 64;

/// A `heapless::Vec<u8, 64>`: a buffer of at most 64 bytes.
#[verifier::external_body]
pub struct ByteBuf(pub heapless::Vec<u8, 64>);

/// A `heapless::String<64>`: UTF-8 text of at most 64 bytes.
#[verifier::external_body]
pub struct TextBuf(pub heapless::String<64>);

#[verifier::external_type_specification]
#[verifier::external_body]
pub struct ExCapacityError(heapless::CapacityError);

/// The bytes a `ByteBuf` holds, first to last.
pub uninterp spec fn bytes_of(v: ByteBuf) -> Seq<u8>;

/// The characters a `TextBuf` holds, first to last.
pub uninterp spec fn chars_of(s: TextBuf) -> Seq<char>;

/// Number of bytes of the UTF-8 encoding of `c` (what `char::len_utf8` returns).
pub open spec fn char_width(c: char) -> nat {
    if (c as u32) < 0x80 {
        1
    } else if (c as u32) < 0x800 {
        2
    } else if (c as u32) < 0x10000 {
        3
    } else {
        4
    }
}

/// Number of bytes of the UTF-8 encoding of `s`.
pub open spec fn utf8_len(s: Seq<char>) -> nat
    decreases s.len(),
{
    if s.len() == 0 {
        0
    } else {
        utf8_len(s.drop_last()) + char_width(s.last())
    }
}

/// `heapless::Vec::new`: an empty buffer.
#[verifier::external_body]
pub(crate) fn bytes_new() -> (v: ByteBuf)
    ensures
        bytes_of(v) == Seq::<u8>::empty(),
{
    ByteBuf(heapless::Vec::new())
}

/// `heapless::Vec::as_slice`: the bytes held; never more than the capacity.
#[verifier::external_body]
pub(crate) fn bytes_as_slice(v: &ByteBuf) -> (r: &[u8])
    ensures
        r@ == bytes_of(*v),
        r@.len() <= CAPACITY,
{
    v.0.as_slice()
}

/// `heapless::Vec::push`: appends `b` unless the buffer is full, in which
/// case it hands `b` back and leaves the buffer as it was.
#[verifier::external_body]
pub(crate) fn bytes_push(v: &mut ByteBuf, b: u8) -> (r: Result<(), u8>)
    ensures
        bytes_of(*old(v)).len() < CAPACITY ==> r is Ok && bytes_of(*final(v)) == bytes_of(
            *old(v),
        ).push(b),
        bytes_of(*old(v)).len() >= CAPACITY ==> (r matches Err(e) && e == b) && bytes_of(*final(v))
            == bytes_of(*old(v)),
{
    v.0.push(b)
}

/// `heapless::Vec::pop`: removes and returns the last byte, `None` when empty.
#[verifier::external_body]
pub(crate) fn bytes_pop(v: &mut ByteBuf) -> (r: Option<u8>)
    ensures
        bytes_of(*old(v)).len() <= CAPACITY,
        bytes_of(*old(v)).len() == 0 ==> r is None && bytes_of(*final(v)) == bytes_of(*old(v)),
        bytes_of(*old(v)).len() > 0 ==> r == Some(bytes_of(*old(v)).last()) && bytes_of(
            *final(v),
        ) == bytes_of(*old(v)).drop_last(),
{
    v.0.pop()
}

/// `heapless::Vec::insert`: puts `b` at `index`, shifting the rest right,
/// unless the buffer is full, in which case `b` comes back unchanged.
/// The method panics when `index` is past the end, hence the `requires`.
#[verifier::external_body]
pub(crate) fn bytes_insert(v: &mut ByteBuf, index: usize, b: u8) -> (r: Result<
    (),
    u8,
>)
    requires
        index <= bytes_of(*old(v)).len(),
    ensures
        bytes_of(*old(v)).len() < CAPACITY ==> r is Ok && bytes_of(*final(v)) == bytes_of(
            *old(v),
        ).insert(index as int, b),
        bytes_of(*old(v)).len() >= CAPACITY ==> (r matches Err(e) && e == b) && bytes_of(*final(v))
            == bytes_of(*old(v)),
{
    v.0.insert(index, b)
}

/// `heapless::Vec::remove`: takes out and returns the byte at `index`,
/// shifting the rest left. The method panics when `index` is out of bounds.
#[verifier::external_body]
pub(crate) fn bytes_remove(v: &mut ByteBuf, index: usize) -> (r: u8)
    requires
        index < bytes_of(*old(v)).len(),
    ensures
        r == bytes_of(*old(v))[index as int],
        bytes_of(*final(v)) == bytes_of(*old(v)).remove(index as int),
{
    v.0.remove(index)
}

/// `heapless::Vec::clear`: empties the buffer.
#[verifier::external_body]
pub(crate) fn bytes_clear(v: &mut ByteBuf)
    ensures
        bytes_of(*final(v)) == Seq::<u8>::empty(),
{
    v.0.clear()
}

/// `Clone` of `heapless::Vec`: a buffer with the same bytes.
#[verifier::external_body]
pub(crate) fn bytes_clone(v: &ByteBuf) -> (r: ByteBuf)
    ensures
        bytes_of(r) == bytes_of(*v),
{
    ByteBuf(v.0.clone())
}

/// `heapless::String::new`: an empty string.
#[verifier::external_body]
pub(crate) fn text_new() -> (s: TextBuf)
    ensures
        chars_of(s) == Seq::<char>::empty(),
{
    TextBuf(heapless::String::new())
}

/// `heapless::String::push`: appends `c` when its UTF-8 encoding still fits
/// in the 64 bytes; otherwise reports the capacity error and leaves the
/// string as it was.
#[verifier::external_body]
pub(crate) fn text_push(s: &mut TextBuf, c: char) -> (r: Result<
    (),
    heapless::CapacityError,
>)
    ensures
        utf8_len(chars_of(*old(s))) + char_width(c) <= CAPACITY ==> r is Ok && chars_of(*final(s))
            == chars_of(*old(s)).push(c),
        utf8_len(chars_of(*old(s))) + char_width(c) > CAPACITY ==> r is Err && chars_of(*final(s))
            == chars_of(*old(s)),
{
    s.0.push(c)
}

/// `TryFrom<&str>` of `heapless::String`: succeeds exactly when the UTF-8
/// encoding of `t` fits in 64 bytes, and then holds the characters of `t`.
#[verifier::external_body]
pub(crate) fn text_try_from(t: &str) -> (r: Result<TextBuf, heapless::CapacityError>)
    ensures
        r is Ok <==> utf8_len(t@) <= CAPACITY,
        r matches Ok(s) ==> chars_of(s) == t@,
{
    heapless::String::try_from(t).map(TextBuf)
}

/// `heapless::String::as_str`: the characters held.
#[verifier::external_body]
pub(crate) fn text_as_str(s: &TextBuf) -> (r: &str)
    ensures
        r@ == chars_of(*s),
{
    s.0.as_str()
}

/// `Clone` of `heapless::String`: a string with the same characters.
#[verifier::external_body]
pub(crate) fn text_clone(s: &TextBuf) -> (r: TextBuf)
    ensures
        chars_of(r) == chars_of(*s),
{
    TextBuf(s.0.clone())
}

} // verus!
