use vstd::prelude::*;

use vstd::string::StringSliceAdditionalSpecFns;
use vstd::utf8::*;

verus! {

/// The byte that ends every line on the wire.
pub const NEWLINE: u8 = 10u8;

/// What one decoding step finds at the front of the bytes read so far.
pub enum Frame {
    /// No complete line yet: more bytes must be read; nothing is consumed.
    Incomplete,
    /// A complete line: `consumed` bytes (the line and its newline) are to be
    /// dropped from the front, and `text` is the line without its newline.
    Line { consumed: usize, text: String },
    /// A complete line whose bytes are not UTF-8: `consumed` bytes are to be
    /// dropped and the stream is to be failed.
    Invalid { consumed: usize },
}

/// `n` is the position of the first newline in `bytes`.
pub open spec fn is_first_newline(bytes: Seq<u8>, n: int) -> bool {
    &&& 0 <= n < bytes.len()
    &&& bytes[n] == NEWLINE
    &&& forall|i: int| 0 <= i < n ==> bytes[i] != NEWLINE
}

/// The bytes that carry one line on the wire: its UTF-8 encoding and a newline.
pub open spec fn line_bytes(text: Seq<char>) -> Seq<u8> {
    encode_utf8(text).push(NEWLINE)
}

/// A text that can travel as one line: it holds no newline character.
pub open spec fn newline_free(text: Seq<char>) -> bool {
    !text.contains('\n')
}

/// Calls `std::str::from_utf8(bytes)`: a string slice with exactly these bytes
/// when they are valid UTF-8, and nothing otherwise.
#[verifier::external_body]
fn str_from_utf8(bytes: &[u8]) -> (r: Option<&str>)
    ensures
        r is Some <==> valid_utf8(bytes@),
        r matches Some(s) ==> s.spec_bytes() == bytes@,
{
    std::str::from_utf8(bytes).ok()
}

/// Looks for the first complete line at the front of `buf`.
pub fn decode_frame(buf: &[u8]) -> (f: Frame)
    ensures
        f is Incomplete <==> !buf@.contains(NEWLINE),
        f matches Frame::Line { consumed, text } ==> {
            &&& 1 <= consumed <= buf@.len()
            &&& buf@[consumed - 1] == NEWLINE
            &&& forall|i: int| 0 <= i < consumed - 1 ==> buf@[i] != NEWLINE
            &&& valid_utf8(buf@.take(consumed - 1))
            &&& text@ == decode_utf8(buf@.take(consumed - 1))
        },
        f matches Frame::Invalid { consumed } ==> {
            &&& 1 <= consumed <= buf@.len()
            &&& buf@[consumed - 1] == NEWLINE
            &&& forall|i: int| 0 <= i < consumed - 1 ==> buf@[i] != NEWLINE
            &&& !valid_utf8(buf@.take(consumed - 1))
        },
{
    let len = buf.len();
    let mut n: usize = 0;
    while n < len && buf[n] != NEWLINE
        invariant
            len == buf@.len(),
            n <= len,
            forall|i: int| 0 <= i < n ==> buf@[i] != NEWLINE,
        decreases len - n,
    {
        n = n + 1;
    }
    if n == len {
        assert(!buf@.contains(NEWLINE));
        return Frame::Incomplete;
    }
    assert(buf@.contains(NEWLINE)) by {
        assert(buf@[n as int] == NEWLINE);
    }
    let (head, _) = buf.split_at(n);
    assert(head@ == buf@.take(n as int));
    match str_from_utf8(head) {
        Some(s) => {
            let text = s.to_owned();
            proof {
                decode_utf8_encode_utf8(head@);
                encode_utf8_decode_utf8(s@);
            }
            Frame::Line { consumed: n + 1, text }
        },
        None => Frame::Invalid { consumed: n + 1 },
    }
}

/// Appends one line to `buf`: the bytes of `msg` and a newline.
pub fn encode_line(msg: String, buf: &mut Vec<u8>)
    ensures
        final(buf)@ == old(buf)@ + encode_utf8(msg@).push(NEWLINE),
{
    let bytes = msg.as_str().as_bytes();
    let len = bytes.len();
    let mut i: usize = 0;
    while i < len
        invariant
            len == bytes@.len(),
            bytes@ == encode_utf8(msg@),
            i <= len,
            buf@ == old(buf)@ + bytes@.take(i as int),
        decreases len - i,
    {
        buf.push(bytes[i]);
        i = i + 1;
        assert(bytes@.take(i as int) == bytes@.take(i - 1).push(bytes@[i - 1]));
    }
    assert(bytes@.take(len as int) == bytes@);
    buf.push(NEWLINE);
}

/// No byte of the UTF-8 encoding of a scalar other than the newline is a newline byte.
proof fn lemma_scalar_avoids_newline(s: u32)
    requires
        is_scalar(s),
        s != 10,
    ensures
        forall|i: int| 0 <= i < encode_scalar(s).len() ==> encode_scalar(s)[i] != NEWLINE,
{
    assert(s <= 0x7F && s != 10 ==> (s & 0x7F) as u8 != 10u8) by (bit_vector);
    assert((0xC0u8 | ((s >> 6) & 0x1F) as u8) != 10u8) by (bit_vector);
    assert((0xE0u8 | ((s >> 12) & 0x0F) as u8) != 10u8) by (bit_vector);
    assert((0xF0u8 | ((s >> 18) & 0x7) as u8) != 10u8) by (bit_vector);
    assert((0x80u8 | (s & 0x3F) as u8) != 10u8) by (bit_vector);
    assert((0x80u8 | ((s >> 6) & 0x3F) as u8) != 10u8) by (bit_vector);
    assert((0x80u8 | ((s >> 12) & 0x3F) as u8) != 10u8) by (bit_vector);
}

/// A text without newline characters encodes to bytes without newline bytes.
proof fn lemma_encoding_avoids_newline(text: Seq<char>)
    requires
        newline_free(text),
    ensures
        forall|i: int| 0 <= i < encode_utf8(text).len() ==> encode_utf8(text)[i] != NEWLINE,
    decreases text.len(),
{
    if text.len() > 0 {
        let c = text[0];
        assert(c != '\n') by {
            assert(text.contains(c));
        }
        char_is_scalar(c);
        assert(c as u32 != 10) by {
            char_u32_cast('\n', 10u32);
            if c as u32 == 10 {
                char_u32_cast(c, 10u32);
            }
        }
        lemma_scalar_avoids_newline(c as u32);
        let rest = text.drop_first();
        assert(newline_free(rest)) by {
            if rest.contains('\n') {
                let j = choose|j: int| 0 <= j < rest.len() && rest[j] == '\n';
                assert(text[j + 1] == '\n');
            }
        }
        lemma_encoding_avoids_newline(rest);
        let head = encode_scalar(c as u32);
        assert(encode_utf8(text) == head + encode_utf8(rest));
        assert forall|i: int| 0 <= i < encode_utf8(text).len() implies encode_utf8(text)[i] != NEWLINE by {
            if i < head.len() {
                assert(encode_utf8(text)[i] == head[i]);
            } else {
                assert(encode_utf8(text)[i] == encode_utf8(rest)[i - head.len()]);
            }
        }
    }
}

/// A line written with `encode_line` is read back whole by `decode_frame`,
/// whatever bytes follow it: the first newline is the one that ends it, the
/// bytes before it are valid UTF-8 and decode to the text, and what follows the
/// consumed bytes is exactly what followed the line. This holds of every text
/// without newline characters; a text with one is read back as several lines.
pub proof fn law_line_read_back(text: Seq<char>, rest: Seq<u8>)
    requires
        !text.contains('\n'),
    ensures
        ({
            let bytes = encode_utf8(text).push(NEWLINE) + rest;
            let n = encode_utf8(text).len() as int;
            &&& bytes[n] == NEWLINE
            &&& forall|i: int| 0 <= i < n ==> bytes[i] != NEWLINE
            &&& is_first_newline(bytes, n)
            &&& valid_utf8(bytes.take(n))
            &&& decode_utf8(bytes.take(n)) == text
            &&& bytes.skip(n + 1) == rest
        }),
{
    let enc = encode_utf8(text);
    let bytes = enc.push(NEWLINE) + rest;
    let n = enc.len() as int;
    lemma_encoding_avoids_newline(text);
    assert forall|i: int| 0 <= i < n implies bytes[i] != NEWLINE by {
        assert(bytes[i] == enc[i]);
    }
    assert(bytes[n] == NEWLINE);
    assert(bytes.take(n) == enc);
    assert(bytes.skip(n + 1) == rest);
    encode_utf8_valid_utf8(text);
    encode_utf8_decode_utf8(text);
}

/// The bytes of any line, with or without newline characters in its text, are
/// exactly the UTF-8 encoding of the text followed by one newline byte.
pub proof fn law_line_bytes(text: Seq<char>)
    ensures
        line_bytes(text).len() == encode_utf8(text).len() + 1,
        line_bytes(text).last() == NEWLINE,
        line_bytes(text).take(encode_utf8(text).len() as int) == encode_utf8(text),
        line_bytes(text) == encode_utf8(text).push(NEWLINE),
{
    assert(line_bytes(text).take(encode_utf8(text).len() as int) =~= encode_utf8(text));
}

/// `is_first_newline` means what it says: the byte at `n` is a newline and
/// none before it is.
pub proof fn law_first_newline(bytes: Seq<u8>, n: int)
    ensures
        is_first_newline(bytes, n) <==> (0 <= n < bytes.len() && bytes[n] == NEWLINE
            && forall|i: int| 0 <= i < n ==> bytes[i] != NEWLINE),
{
}

} // verus!
