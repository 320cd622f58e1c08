//! Reading the ASCII head of a text.
//!
//! A `&str` is stored as UTF-8, in which an ASCII character is one byte equal
//! to its code and every byte of any other character is `0x80` or above. So
//! as long as only ASCII characters have been passed, the character at
//! position `n` starts at byte `n`, and its first byte tells whether it is
//! ASCII and, if so, which character it is.

use vstd::prelude::*;
use vstd::string::*;
use vstd::utf8::*;

verus! {

/// Whether `c` is an ASCII character.
pub open spec fn is_ascii_char(c: char) -> bool {
    '\0' <= c && c <= '\u{7f}'
}

/// Whether `s` has at least `n` characters and its first `n` are ASCII.
pub open spec fn ascii_prefix(s: Seq<char>, n: int) -> bool {
    &&& 0 <= n <= s.len()
    &&& forall|i: int| 0 <= i < n ==> is_ascii_char(#[trigger] s[i])
}

/// The code of the character of `s` at position `i`, where there is one and it is ASCII.
pub open spec fn spec_ascii_at(s: Seq<char>, i: int) -> Option<u8> {
    if 0 <= i < s.len() && is_ascii_char(s[i]) {
        Some(s[i] as u8)
    } else {
        None
    }
}

/// The encoding of a character is the character's code if it is ASCII, and
/// starts with a byte of `0x80` or above if it is not.
proof fn lemma_encode_char_head(c: char)
    ensures
        encode_scalar(c as u32).len() >= 1,
        is_ascii_char(c) ==> encode_scalar(c as u32) =~= seq![c as u8],
        !is_ascii_char(c) ==> encode_scalar(c as u32)[0] >= 0x80,
{
    let v = c as u32;
    char_is_scalar(c);
    if has_width_1_encoding(v) {
        assert((v & 0x7F) as u8 == v as u8) by (bit_vector)
            requires
                v <= 0x7f,
        ;
    } else if has_width_2_encoding(v) {
        assert((0xC0 | ((v >> 6) & 0x1F) as u8) >= 0x80u8) by (bit_vector);
    } else if has_width_3_encoding(v) {
        assert((0xE0 | ((v >> 12) & 0x0F) as u8) >= 0x80u8) by (bit_vector);
    } else {
        assert((0xF0 | ((v >> 18) & 0x7) as u8) >= 0x80u8) by (bit_vector);
    }
}

/// In the encoding of a text whose first `n` characters are ASCII, those
/// characters take one byte each, byte `n` is where character `n` starts, and
/// what follows byte `n` is the encoding of what follows character `n`.
pub proof fn lemma_ascii_prefix_bytes(s: Seq<char>, n: int)
    requires
        ascii_prefix(s, n),
    ensures
        n <= encode_utf8(s).len(),
        n == encode_utf8(s).len() <==> n == s.len(),
        forall|i: int| 0 <= i < n ==> encode_utf8(s)[i] == s[i] as u8,
        n < s.len() && is_ascii_char(s[n]) ==> encode_utf8(s)[n] == s[n] as u8,
        n < s.len() && !is_ascii_char(s[n]) ==> encode_utf8(s)[n] >= 0x80,
        is_char_boundary(encode_utf8(s), n),
        encode_utf8(s).subrange(n, encode_utf8(s).len() as int) == encode_utf8(s.skip(n)),
    decreases n,
{
    let bytes = encode_utf8(s);
    encode_utf8_valid_utf8(s);
    if s.len() > 0 {
        lemma_encode_char_head(s[0]);
    }
    if n == 0 {
        assert(s.skip(0) =~= s);
        assert(bytes.subrange(0, bytes.len() as int) =~= bytes);
    } else {
        let tail = s.drop_first();
        assert(is_ascii_char(s[0]));
        assert(bytes =~= seq![s[0] as u8] + encode_utf8(tail));
        assert(ascii_prefix(tail, n - 1)) by {
            assert forall|i: int| 0 <= i < n - 1 implies is_ascii_char(#[trigger] tail[i]) by {
                assert(tail[i] == s[i + 1]);
            }
        }
        lemma_ascii_prefix_bytes(tail, n - 1);
        let tail_bytes = encode_utf8(tail);
        assert forall|i: int| 0 <= i < n implies bytes[i] == s[i] as u8 by {
            if i > 0 {
                assert(bytes[i] == tail_bytes[i - 1]);
                assert(tail[i - 1] == s[i]);
            }
        }
        if n < s.len() {
            assert(bytes[n] == tail_bytes[n - 1]);
            assert(tail[n - 1] == s[n]);
        }
        assert(tail.skip(n - 1) =~= s.skip(n));
        assert(bytes.subrange(n, bytes.len() as int) =~= tail_bytes.subrange(
            n - 1,
            tail_bytes.len() as int,
        ));
        assert(is_char_boundary(bytes, n)) by {
            encode_utf8_first_scalar(s);
            assert(pop_first_scalar(bytes) =~= tail_bytes);
        }
    }
}

/// The code of the character at position `i` of `s`, or `None` where `s`
/// ends before it or the character is not ASCII. The characters before `i`
/// must be ASCII.
pub(crate) fn ascii_at(s: &str, i: usize) -> (code: Option<u8>)
    requires
        ascii_prefix(s@, i as int),
    ensures
        code == spec_ascii_at(s@, i as int),
{
    proof {
        lemma_ascii_prefix_bytes(s@, i as int);
    }
    let bytes = s.as_bytes();
    if i < bytes.len() {
        let b = bytes[i];
        if b < 0x80 {
            Some(b)
        } else {
            None
        }
    } else {
        None
    }
}

/// The text that follows the first `n` characters of `s`, which must be ASCII.
pub(crate) fn skip_ascii(s: &str, n: usize) -> (rest: &str)
    requires
        ascii_prefix(s@, n as int),
    ensures
        rest@ == s@.skip(n as int),
{
    proof {
        lemma_ascii_prefix_bytes(s@, n as int);
    }
    let (_, rest) = s.split_at(n);
    proof {
        encode_utf8_decode_utf8(rest@);
        encode_utf8_decode_utf8(s@.skip(n as int));
    }
    rest
}

} // verus!
