//! Percent-encoding of names for use in links.

use crate::text::push_str;
use crate::trusted::hex_digit;
use vstd::prelude::*;
use vstd::utf8::encode_utf8;

verus! {

/// Whether a byte of a name is written as a percent sign and two digits:
/// every byte that is not ASCII, every control character, and the space,
/// `"`, `#`, `<`, `>`, `?`, the backtick, `{` and `}`.
pub open spec fn must_encode(b: u8) -> bool {
    b >= 0x80 || b < 0x20 || b == 0x7f || b == 0x20 || b == 0x22 || b == 0x23 || b == 0x3c || b
        == 0x3e || b == 0x3f || b == 0x60 || b == 0x7b || b == 0x7d
}

pub open spec fn encoded_byte(b: u8) -> Seq<char> {
    if must_encode(b) {
        seq!['%', hex_digit(b as int / 16), hex_digit(b as int % 16)]
    } else {
        seq![b as char]
    }
}

pub open spec fn encoded_bytes(bytes: Seq<u8>) -> Seq<char>
    decreases bytes.len(),
{
    if bytes.len() == 0 {
        Seq::empty()
    } else {
        encoded_bytes(bytes.drop_last()) + encoded_byte(bytes.last())
    }
}

/// The percent-encoding of a name: that of the bytes of its UTF-8 form.
pub open spec fn encoded_name(name: Seq<char>) -> Seq<char> {
    encoded_bytes(encode_utf8(name))
}

/// Appends the percent-encoding of `name` to `out`.
pub fn push_encoded(out: &mut Vec<char>, name: &str)
    ensures
        final(out)@ == old(out)@ + encoded_name(name@),
{
    let bytes = name.as_bytes();
    let mut i: usize = 0;
    assert(bytes@.take(0) == Seq::<u8>::empty());
    while i < bytes.len()
        invariant
            i <= bytes.len(),
            bytes@ == encode_utf8(name@),
            out@ == old(out)@ + encoded_bytes(bytes@.take(i as int)),
        decreases bytes.len() - i,
    {
        let b = bytes[i];
        assert(bytes@.take(i + 1).drop_last() == bytes@.take(i as int));
        assert(bytes@.take(i + 1).last() == b);
        if b >= 0x80 || b < 0x20 || b == 0x7f || b == 0x20 || b == 0x22 || b == 0x23 || b == 0x3c
            || b == 0x3e || b == 0x3f || b == 0x60 || b == 0x7b || b == 0x7d {
            push_str(out, percent_encoding::percent_encode_byte(b));
        } else {
            out.push(b as char);
            assert(out@ == old(out)@ + encoded_bytes(bytes@.take(i as int)) + seq![b as char]);
        }
        i += 1;
    }
    assert(bytes@.take(bytes.len() as int) == bytes@);
}

/// Whether a character can stand in a link as it is.
pub open spec fn is_link_safe(c: char) -> bool {
    c != ' ' && c != '"' && c != '#' && c != '<' && c != '>' && c != '?' && c != '`' && c != '{'
        && c != '}' && ' ' < c && c < '\u{7f}'
}

/// An encoded name holds only characters that can stand in a link.
pub proof fn encoded_is_link_safe(bytes: Seq<u8>)
    ensures
        forall|i: int| 0 <= i < encoded_bytes(bytes).len() ==> is_link_safe(encoded_bytes(bytes)[i]),
    decreases bytes.len(),
{
    if bytes.len() > 0 {
        encoded_is_link_safe(bytes.drop_last());
        let b = bytes.last();
        let tail = encoded_byte(b);
        assert forall|k: int| 0 <= k < tail.len() implies is_link_safe(tail[k]) by {
            if !must_encode(b) {
                assert(tail[0] == b as char);
                assert((b as char) as u32 == b as u32);
            }
        }
        let head = encoded_bytes(bytes.drop_last());
        assert forall|i: int| 0 <= i < encoded_bytes(bytes).len() implies is_link_safe(
            encoded_bytes(bytes)[i],
        ) by {
            if i < head.len() {
                assert(encoded_bytes(bytes)[i] == head[i]);
            } else {
                assert(encoded_bytes(bytes)[i] == tail[i - head.len()]);
            }
        }
    }
}

} // verus!
