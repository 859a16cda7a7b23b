//! C-style strings in fixed-size byte buffers, as the kernel structures
//! hold them.

use vstd::prelude::*;
use vstd::utf8::{decode_utf8, encode_scalar, encode_utf8, valid_utf8};

use crate::text::utf8_len;

verus! {

/// What `String::from_utf8_lossy` gives for bytes that are not valid UTF-8
/// (each invalid sequence replaced by U+FFFD).
pub uninterp spec fn utf8_lossy(bytes: Seq<u8>) -> Seq<char>;

/// The text that `String::from_utf8_lossy` gives for `bytes`.
pub open spec fn lossy_text(bytes: Seq<u8>) -> Seq<char> {
    if valid_utf8(bytes) {
        decode_utf8(bytes)
    } else {
        utf8_lossy(bytes)
    }
}

/// `String::from_utf8_lossy(..).into_owned()`: valid UTF-8 decodes to its
/// characters unchanged; for other input the result is [`utf8_lossy`].
#[verifier::external_body]
pub(crate) fn string_from_utf8_lossy(bytes: &[u8]) -> (r: String)
    ensures
        valid_utf8(bytes@) ==> r@ == decode_utf8(bytes@),
        !valid_utf8(bytes@) ==> r@ == utf8_lossy(bytes@),
{
    String::from_utf8_lossy(bytes).into_owned()
}

/// A buffer of `n` zero bytes.
pub open spec fn zero_bytes(n: nat) -> Seq<u8> {
    Seq::new(n, |i: int| 0u8)
}

/// The number of bytes of `bytes` that fit in a buffer of `n` bytes with
/// room for the terminating NUL.
pub open spec fn fixed_copy_len(bytes: Seq<u8>, n: nat) -> int {
    if bytes.len() < n - 1 {
        bytes.len() as int
    } else {
        n - 1
    }
}

/// The buffer `old` after copying `bytes` into it C-string style: as many
/// bytes as fit before a NUL, then the NUL; the rest is left as it was.
pub open spec fn fixed_write(old: Seq<u8>, bytes: Seq<u8>) -> Seq<u8> {
    let len = fixed_copy_len(bytes, old.len());
    bytes.take(len) + seq![0u8] + old.skip(len + 1)
}

/// Index of the first NUL byte, or the length when there is none.
pub open spec fn c_str_len(buf: Seq<u8>) -> int
    decreases buf.len(),
{
    if buf.len() == 0 {
        0
    } else if buf[0] == 0 {
        0
    } else {
        1 + c_str_len(buf.drop_first())
    }
}

/// The bytes of a buffer before its first NUL.
pub open spec fn c_str_bytes(buf: Seq<u8>) -> Seq<u8> {
    buf.take(c_str_len(buf))
}

/// The text of a C-style string buffer, as [`fixed_to_string`] reads it.
pub open spec fn fixed_text(buf: Seq<u8>) -> Seq<char> {
    lossy_text(c_str_bytes(buf))
}

proof fn lemma_c_str_len_of(buf: Seq<u8>, k: int)
    requires
        0 <= k <= buf.len(),
        forall|j: int| 0 <= j < k ==> buf[j] != 0,
        k == buf.len() || buf[k] == 0,
    ensures
        c_str_len(buf) == k,
    decreases k,
{
    if k > 0 {
        assert forall|j: int| 0 <= j < k - 1 implies buf.drop_first()[j] != 0 by {
            assert(buf.drop_first()[j] == buf[j + 1]);
        }
        if k < buf.len() {
            assert(buf.drop_first()[k - 1] == buf[k]);
        }
        lemma_c_str_len_of(buf.drop_first(), k - 1);
    }
}

proof fn lemma_scalar_bytes_nonzero(c: char)
    requires
        c != '\0',
    ensures
        forall|j: int| 0 <= j < encode_scalar(c as u32).len() ==> #[trigger] encode_scalar(c as u32)[j] != 0,
{
    let v = c as u32;
    assert(v != 0);
    assert(v != 0 && v <= 0x7f ==> (v & 0x7f) as u8 != 0) by (bit_vector);
    assert(0xc0u8 | ((v >> 6) & 0x1f) as u8 != 0) by (bit_vector);
    assert(0xe0u8 | ((v >> 12) & 0x0f) as u8 != 0) by (bit_vector);
    assert(0xf0u8 | ((v >> 18) & 0x7) as u8 != 0) by (bit_vector);
    assert(0x80u8 | (v & 0x3f) as u8 != 0) by (bit_vector);
    assert(0x80u8 | ((v >> 6) & 0x3f) as u8 != 0) by (bit_vector);
    assert(0x80u8 | ((v >> 12) & 0x3f) as u8 != 0) by (bit_vector);
}

/// The UTF-8 encoding of a text without NUL characters has no zero byte.
pub proof fn lemma_encode_no_zero(s: Seq<char>)
    requires
        forall|i: int| 0 <= i < s.len() ==> s[i] != '\0',
    ensures
        forall|j: int| 0 <= j < encode_utf8(s).len() ==> encode_utf8(s)[j] != 0,
    decreases s.len(),
{
    if s.len() > 0 {
        let head = encode_scalar(s[0] as u32);
        let rest = encode_utf8(s.drop_first());
        assert forall|i: int| 0 <= i < s.drop_first().len() implies s.drop_first()[i] != '\0' by {
            assert(s.drop_first()[i] == s[i + 1]);
        }
        lemma_encode_no_zero(s.drop_first());
        lemma_scalar_bytes_nonzero(s[0]);
        assert(encode_utf8(s) == head + rest);
        assert forall|j: int| 0 <= j < encode_utf8(s).len() implies encode_utf8(s)[j] != 0 by {
            if j < head.len() {
                assert(encode_utf8(s)[j] == head[j]);
            } else {
                assert(encode_utf8(s)[j] == rest[j - head.len()]);
            }
        }
    }
}

/// Copy a Rust `&str` into a fixed-size `[u8; N]` buffer (C-string style):
/// as many bytes as fit before a terminating NUL; the bytes after the NUL
/// are left as they were.
pub fn str_to_fixed<const N: usize>(buf: &mut [u8; N], s: &str)
    requires
        N >= 1,
    ensures
        final(buf)@ == fixed_write(old(buf)@, encode_utf8(s@)),
{
    let bytes = s.as_bytes();
    let len = if bytes.len() < N - 1 {
        bytes.len()
    } else {
        N - 1
    };
    let ghost b = bytes@;
    let ghost o = old(buf)@;
    let mut i: usize = 0;
    while i < len
        invariant
            i <= len,
            len == fixed_copy_len(b, N as nat),
            len <= N - 1,
            len <= b.len(),
            b == bytes@,
            o.len() == N,
            buf@.len() == N,
            forall|j: int| 0 <= j < i ==> buf@[j] == b[j],
            forall|j: int| i <= j < N ==> buf@[j] == o[j],
        decreases len - i,
    {
        buf[i] = bytes[i];
        i = i + 1;
    }
    buf[len] = 0;
    assert(buf@ =~= fixed_write(o, b));
}

/// Read a NUL-terminated C string from a fixed `[u8; N]` buffer.
pub fn fixed_to_string<const N: usize>(buf: &[u8; N]) -> (r: String)
    ensures
        r@ == fixed_text(buf@),
{
    let ghost b = buf@;
    let mut end: usize = 0;
    while end < N && buf[end] != 0
        invariant
            end <= N,
            b == buf@,
            b.len() == N,
            forall|j: int| 0 <= j < end ==> b[j] != 0,
        decreases N - end,
    {
        end = end + 1;
    }
    proof {
        lemma_c_str_len_of(b, end as int);
    }
    let mut prefix: Vec<u8> = Vec::new();
    let mut i: usize = 0;
    while i < end
        invariant
            i <= end <= N,
            b == buf@,
            prefix@ == b.take(i as int),
        decreases end - i,
    {
        prefix.push(buf[i]);
        i = i + 1;
        assert(prefix@ =~= b.take(i as int));
    }
    string_from_utf8_lossy(prefix.as_slice())
}

/// A text without NUL characters that fits in a buffer of `n` bytes
/// (terminator included) is read back unchanged after it is written,
/// whatever the buffer held before.
pub proof fn fixed_write_then_read(old: Seq<u8>, s: Seq<char>)
    requires
        old.len() >= 1,
        utf8_len(s) < old.len(),
        forall|i: int| 0 <= i < s.len() ==> s[i] != '\0',
    ensures
        fixed_text(fixed_write(old, encode_utf8(s))) == s,
{
    let b = encode_utf8(s);
    let w = fixed_write(old, b);
    lemma_encode_no_zero(s);
    assert(fixed_copy_len(b, old.len()) == b.len());
    assert forall|j: int| 0 <= j < b.len() implies w[j] != 0 by {
        assert(w[j] == b[j]);
    }
    assert(w[b.len() as int] == 0);
    lemma_c_str_len_of(w, b.len() as int);
    assert(c_str_bytes(w) =~= b);
    vstd::utf8::encode_utf8_valid_utf8(s);
    vstd::utf8::encode_utf8_decode_utf8(s);
}

} // verus!
