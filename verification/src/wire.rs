//! The byte format shared by stored records and instructions: fixed-width
//! little-endian integers and length-prefixed UTF-8 text.

use vstd::prelude::*;
use vstd::slice::{slice_subrange, slice_to_vec};
use vstd::utf8::{decode_utf8, encode_utf8, valid_utf8};

verus! {

/// The four bytes of `x`, least significant first.
#[verifier::opaque]
pub open spec fn u32_bytes(x: u32) -> Seq<u8> {
    seq![
        (x % 256) as u8,
        ((x / 256) % 256) as u8,
        ((x / 65536) % 256) as u8,
        ((x / 16777216) % 256) as u8,
    ]
}

/// The number whose little-endian bytes are the first four of `bytes`.
#[verifier::opaque]
pub open spec fn u32_value(bytes: Seq<u8>) -> int
    recommends
        bytes.len() >= 4,
{
    bytes[0] + 256 * bytes[1] + 65536 * bytes[2] + 16777216 * bytes[3]
}

/// Reading back the bytes of a number gives the number.
pub proof fn lemma_u32_value_of_bytes(x: u32)
    ensures
        u32_bytes(x).len() == 4,
        u32_value(u32_bytes(x)) == x,
{
    reveal(u32_bytes);
    reveal(u32_value);
}

/// Four bytes are the bytes of the number they spell.
pub proof fn lemma_u32_bytes_of_value(bytes: Seq<u8>)
    requires
        bytes.len() == 4,
    ensures
        0 <= u32_value(bytes) <= u32::MAX,
        u32_bytes(u32_value(bytes) as u32) == bytes,
{
    reveal(u32_bytes);
    reveal(u32_value);
    let b0 = bytes[0] as int;
    let b1 = bytes[1] as int;
    let b2 = bytes[2] as int;
    let b3 = bytes[3] as int;
    let v = u32_value(bytes);
    assert(v == b0 + 256 * (b1 + 256 * (b2 + 256 * b3)));
    assert(v % 256 == b0 && v / 256 == b1 + 256 * (b2 + 256 * b3));
    assert((v / 256) % 256 == b1 && v / 65536 == b2 + 256 * b3);
    assert((v / 65536) % 256 == b2 && v / 16777216 == b3);
    assert(u32_bytes(v as u32) =~= bytes);
}

/// The number depends on the first four bytes alone, and fits a `u32`.
pub proof fn lemma_u32_value_front(bytes: Seq<u8>)
    requires
        bytes.len() >= 4,
    ensures
        0 <= u32_value(bytes) <= u32::MAX,
        u32_value(bytes) == u32_value(bytes.subrange(0, 4)),
{
    reveal(u32_value);
}

/// Appends the little-endian bytes of `x` to `out`.
pub fn put_u32(out: &mut Vec<u8>, x: u32)
    ensures
        final(out)@ == old(out)@ + u32_bytes(x),
{
    out.push((x % 256) as u8);
    out.push(((x / 256) % 256) as u8);
    out.push(((x / 65536) % 256) as u8);
    out.push(((x / 16777216) % 256) as u8);
    proof {
        reveal(u32_bytes);
    }
    assert(out@ =~= old(out)@ + u32_bytes(x));
}

/// Reads a little-endian `u32` at `pos`, or `None` if fewer than four bytes
/// are left there.
pub fn get_u32(data: &[u8], pos: usize) -> (r: Option<u32>)
    ensures
        r is Some <==> pos + 4 <= data.len(),
        r is Some ==> r->0 == u32_value(data@.skip(pos as int)),
{
    if pos > data.len() || data.len() - pos < 4 {
        return None;
    }
    let b0: u32 = data[pos] as u32;
    let b1: u32 = data[pos + 1] as u32;
    let b2: u32 = data[pos + 2] as u32;
    let b3: u32 = data[pos + 3] as u32;
    proof {
        reveal(u32_value);
    }
    Some(b0 + 256 * b1 + 65536 * b2 + 16777216 * b3)
}

/// Whether a text can be written: its UTF-8 length fits the four-byte prefix.
pub open spec fn text_fits(text: Seq<char>) -> bool {
    encode_utf8(text).len() <= u32::MAX
}

/// The bytes of a text: the length of its UTF-8 form, then that form.
pub open spec fn text_bytes(text: Seq<char>) -> Seq<u8> {
    u32_bytes(encode_utf8(text).len() as u32) + encode_utf8(text)
}

/// The number of bytes that `text_bytes` gives.
pub open spec fn text_size(text: Seq<char>) -> nat {
    4 + encode_utf8(text).len()
}

/// The text that `bytes` starts with and the number of bytes it takes, or
/// `None` where the prefix is cut short, promises more bytes than there are,
/// or is followed by bytes that are not UTF-8.
pub open spec fn text_at(bytes: Seq<u8>) -> Option<(Seq<char>, int)> {
    if bytes.len() < 4 {
        None
    } else {
        let n = u32_value(bytes);
        if bytes.len() < 4 + n {
            None
        } else if !valid_utf8(bytes.subrange(4, 4 + n)) {
            None
        } else {
            Some((decode_utf8(bytes.subrange(4, 4 + n)), 4 + n))
        }
    }
}

/// `String::from_utf8` of std: the text that the bytes spell, exactly when
/// they are well-formed UTF-8.
#[verifier::external_body]
fn text_from_utf8(bytes: Vec<u8>) -> (r: Option<String>)
    ensures
        r is Some <==> valid_utf8(bytes@),
        r is Some ==> r->0@ == decode_utf8(bytes@),
{
    match String::from_utf8(bytes) {
        Ok(text) => Some(text),
        Err(_) => None,
    }
}

/// Appends a text to `out`.
pub fn put_text(out: &mut Vec<u8>, text: &str)
    requires
        text_fits(text@),
    ensures
        final(out)@ == old(out)@ + text_bytes(text@),
{
    let body = text.as_bytes();
    put_u32(out, body.len() as u32);
    out.extend_from_slice(body);
    assert(out@ =~= old(out)@ + text_bytes(text@));
}

/// Reads the text that starts at `pos`, and returns it with the position
/// behind it. There is no text at a position behind the end of `data`.
pub fn get_text(data: &[u8], pos: usize) -> (r: Option<(String, usize)>)
    ensures
        pos > data.len() ==> r is None,
        pos <= data.len() ==> match (text_at(data@.skip(pos as int)), r) {
            (Some((text, used)), Some((got, next))) => got@ == text && next == pos + used,
            (None, None) => true,
            _ => false,
        },
{
    let ghost rest = data@.skip(pos as int);
    let n = match get_u32(data, pos) {
        Some(n) => n as usize,
        None => {
            return None;
        },
    };
    if data.len() - pos - 4 < n {
        return None;
    }
    let body = slice_to_vec(slice_subrange(data, pos + 4, pos + 4 + n));
    assert(body@ =~= rest.subrange(4, 4 + n));
    match text_from_utf8(body) {
        Some(text) => Some((text, pos + 4 + n)),
        None => None,
    }
}

/// Overwrites the front of a fixed-size slot with `bytes`. A slot too small
/// for them is left as it was, and `false` is returned.
pub fn write_front(slot: &mut Vec<u8>, bytes: &[u8]) -> (done: bool)
    ensures
        done == (bytes@.len() <= old(slot)@.len()),
        done ==> final(slot)@ == bytes@ + old(slot)@.skip(bytes@.len() as int),
        !done ==> final(slot)@ == old(slot)@,
{
    if bytes.len() > slot.len() {
        return false;
    }
    let mut i: usize = 0;
    while i < bytes.len()
        invariant
            i <= bytes@.len() <= slot@.len(),
            slot@.len() == old(slot)@.len(),
            slot@ == bytes@.take(i as int) + old(slot)@.skip(i as int),
        decreases bytes@.len() - i,
    {
        slot.set(i, bytes[i]);
        i += 1;
        assert(slot@ =~= bytes@.take(i as int) + old(slot)@.skip(i as int));
    }
    assert(bytes@.take(i as int) =~= bytes@);
    true
}

/// A written text is read back whole, whatever follows it.
pub proof fn lemma_text_at_text_bytes(text: Seq<char>, rest: Seq<u8>)
    requires
        text_fits(text),
    ensures
        text_bytes(text).len() == text_size(text),
        text_at(text_bytes(text) + rest) == Some((text, text_size(text) as int)),
        (text_bytes(text) + rest).skip(text_size(text) as int) == rest,
{
    let body = encode_utf8(text);
    let bytes = text_bytes(text) + rest;
    lemma_u32_value_of_bytes(body.len() as u32);
    lemma_u32_value_front(bytes);
    assert(bytes.subrange(0, 4) =~= u32_bytes(body.len() as u32));
    assert(bytes.subrange(4, 4 + body.len() as int) =~= body);
    vstd::utf8::encode_utf8_valid_utf8(text);
    vstd::utf8::encode_utf8_decode_utf8(text);
    assert(bytes.skip(text_size(text) as int) =~= rest);
}

/// What was read as a text is what writing that text gives.
pub proof fn lemma_text_bytes_text_at(bytes: Seq<u8>, text: Seq<char>, used: int)
    requires
        text_at(bytes) == Some((text, used)),
    ensures
        text_fits(text),
        used == text_size(text),
        used <= bytes.len(),
        bytes.subrange(0, used) == text_bytes(text),
{
    let n = u32_value(bytes);
    let body = bytes.subrange(4, 4 + n);
    vstd::utf8::decode_utf8_encode_utf8(body);
    lemma_u32_value_front(bytes);
    lemma_u32_bytes_of_value(bytes.subrange(0, 4));
    assert(bytes.subrange(0, 4 + n) =~= bytes.subrange(0, 4) + body);
}

} // verus!
