use vstd::prelude::*;
use vstd::string::StringSliceAdditionalSpecFns;
use vstd::utf8::*;

verus! {

/// The ASCII character of a digit value below 16, upper-case for 10..15.
pub open spec fn hex_digit(n: int) -> u8 {
    if n < 10 { (48 + n) as u8 } else { (55 + n) as u8 }
}

/// Every byte is an ASCII character.
pub open spec fn is_ascii_bytes(bytes: Seq<u8>) -> bool {
    forall|i: int| 0 <= i < bytes.len() ==> bytes[i] < 128
}

/// The characters that a run of ASCII bytes decodes to, one per byte.
pub open spec fn ascii_chars(bytes: Seq<u8>) -> Seq<char> {
    bytes.map_values(|b: u8| b as char)
}

/// `core::str::from_utf8`: std documents that it returns `Ok` with a string slice over
/// exactly these bytes when they are valid UTF-8. Nothing is claimed of other input, which
/// `requires` leaves out.
#[verifier::external_body]
pub(crate) fn utf8_str<'a>(bytes: &'a [u8]) -> (s: &'a str)
    requires
        valid_utf8(bytes@),
    ensures
        s.spec_bytes() == bytes@,
{
    core::str::from_utf8(bytes).unwrap_or("")
}

/// The string over a run of ASCII bytes: one character per byte, equal to it.
pub fn ascii_str<'a>(bytes: &'a [u8]) -> (s: &'a str)
    requires
        is_ascii_bytes(bytes@),
    ensures
        s@ == ascii_chars(bytes@),
{
    let ghost chars = ascii_chars(bytes@);
    proof {
        assert(is_ascii_chars(chars));
        is_ascii_chars_encode_utf8(chars);
        assert forall|i: int| 0 <= i < bytes@.len() implies encode_utf8(chars)[i] == bytes@[i] by {
            let b = bytes@[i];
            assert((b as char) as u8 == b);
        }
        assert(encode_utf8(chars) =~= bytes@);
        encode_utf8_valid_utf8(chars);
    }
    let s = utf8_str(bytes);
    proof {
        encode_utf8_decode_utf8(s@);
        encode_utf8_decode_utf8(chars);
    }
    s
}

/// The 4-bit group of `value` that starts at bit `4 * k`.
pub open spec fn nibble(value: u64, k: int) -> int {
    ((value >> ((4 * k) as u64)) & 0xF) as int
}

/// The `n` upper-case hex digits of the low `4 * n` bits of `value`, most significant
/// first.
pub open spec fn hex_bytes(value: u64, n: int) -> Seq<u8> {
    Seq::new(n as nat, |i: int| hex_digit(nibble(value, n - 1 - i)))
}

/// "0x" followed by the 16 upper-case hex digits of `value`, most significant first.
pub open spec fn hex_u64_bytes(value: u64) -> Seq<u8> {
    seq![48u8, 120u8] + hex_bytes(value, 16)
}

fn hex_char(n: u64) -> (c: u8)
    requires
        n < 16,
    ensures
        c == hex_digit(n as int),
        c < 128,
{
    if n < 10 { 48 + n as u8 } else { 55 + n as u8 }
}

/// Write the `n` hex digits of `value` into `buffer[start ..]`.
fn fill_hex(buffer: &mut [u8], start: usize, value: u64, n: usize)
    requires
        n <= 16,
        start <= 16,
        start + n <= old(buffer)@.len(),
    ensures
        final(buffer)@.len() == old(buffer)@.len(),
        final(buffer)@.subrange(start as int, start + n) == hex_bytes(value, n as int),
        forall|j: int| 0 <= j < old(buffer)@.len() && !(start <= j < start + n) ==> final(buffer)@[j] == old(buffer)@[j],
        forall|j: int| start <= j < start + n ==> final(buffer)@[j] < 128,
{
    let mut i: usize = 0;
    while i < n
        invariant
            n <= 16,
            i <= n,
            start + n <= buffer@.len(),
            start <= 16,
            buffer@.len() == old(buffer)@.len(),
            forall|j: int| start <= j < start + i ==> buffer@[j] == hex_digit(nibble(value, n - 1 - (j - start))),
            forall|j: int| start <= j < start + i ==> buffer@[j] < 128,
            forall|j: int| 0 <= j < buffer@.len() && !(start <= j < start + i) ==> buffer@[j] == old(buffer)@[j],
        decreases n - i,
    {
        let shift: u64 = ((n - 1 - i) * 4) as u64;
        let d: u64 = (value >> shift) & 0xF;
        assert(d < 16) by (bit_vector)
            requires d == (value >> shift) & 0xF;
        buffer[start + i] = hex_char(d);
        i = i + 1;
    }
    assert(buffer@.subrange(start as int, start + n) =~= hex_bytes(value, n as int));
}

/// Format a number as "0x" and sixteen upper-case hexadecimal digits.
pub fn format_hex_u64(value: u64, buffer: &mut [u8; 18]) -> (s: &str)
    ensures
        final(buffer)@ == hex_u64_bytes(value),
        s@ == ascii_chars(hex_u64_bytes(value)),
{
    buffer[0] = 48;
    buffer[1] = 120;
    fill_hex(buffer, 2, value, 16);
    assert(buffer@ =~= hex_u64_bytes(value));
    ascii_str(buffer.as_slice())
}

/// Format a 32-bit number as "0x" and eight upper-case hexadecimal digits.
pub fn format_hex_u32(value: u32, buffer: &mut [u8; 10]) -> (s: &str)
    ensures
        final(buffer)@ == seq![48u8, 120u8] + hex_bytes(value as u64, 8),
        s@ == ascii_chars(seq![48u8, 120u8] + hex_bytes(value as u64, 8)),
{
    buffer[0] = 48;
    buffer[1] = 120;
    fill_hex(buffer, 2, value as u64, 8);
    assert(buffer@ =~= seq![48u8, 120u8] + hex_bytes(value as u64, 8));
    ascii_str(buffer.as_slice())
}

/// Format a 16-bit number as "0x" and four upper-case hexadecimal digits.
pub fn format_hex_u16(value: u16, buffer: &mut [u8; 6]) -> (s: &str)
    ensures
        final(buffer)@ == seq![48u8, 120u8] + hex_bytes(value as u64, 4),
        s@ == ascii_chars(seq![48u8, 120u8] + hex_bytes(value as u64, 4)),
{
    buffer[0] = 48;
    buffer[1] = 120;
    fill_hex(buffer, 2, value as u64, 4);
    assert(buffer@ =~= seq![48u8, 120u8] + hex_bytes(value as u64, 4));
    ascii_str(buffer.as_slice())
}

/// Format an 8-bit number as "0x" and two upper-case hexadecimal digits.
pub fn format_hex_u8(value: u8, buffer: &mut [u8; 4]) -> (s: &str)
    ensures
        final(buffer)@ == seq![48u8, 120u8] + hex_bytes(value as u64, 2),
        s@ == ascii_chars(seq![48u8, 120u8] + hex_bytes(value as u64, 2)),
{
    buffer[0] = 48;
    buffer[1] = 120;
    fill_hex(buffer, 2, value as u64, 2);
    assert(buffer@ =~= seq![48u8, 120u8] + hex_bytes(value as u64, 2));
    ascii_str(buffer.as_slice())
}

/// Append the `n` hex digits of `value` to `out`.
pub fn push_hex(out: &mut Vec<u8>, value: u64, n: usize)
    requires
        n <= 16,
    ensures
        final(out)@ == old(out)@ + hex_bytes(value, n as int),
{
    let mut buf: [u8; 16] = [0u8; 16];
    fill_hex(&mut buf, 0, value, n);
    let mut i: usize = 0;
    while i < n
        invariant
            n <= 16,
            i <= n,
            buf@.subrange(0, n as int) == hex_bytes(value, n as int),
            out@ == old(out)@ + hex_bytes(value, n as int).subrange(0, i as int),
        decreases n - i,
    {
        out.push(buf[i]);
        proof {
            assert(buf@[i as int] == buf@.subrange(0, n as int)[i as int]);
            assert(hex_bytes(value, n as int).subrange(0, i + 1)
                =~= hex_bytes(value, n as int).subrange(0, i as int).push(buf@[i as int]));
        }
        i = i + 1;
    }
    assert(hex_bytes(value, n as int).subrange(0, n as int) =~= hex_bytes(value, n as int));
}

/// Write the sixteen hex digits of `value` (no prefix) to the serial output `out`.
pub fn write_hex_u64(value: u64, out: &mut Vec<u8>)
    ensures
        final(out)@ == old(out)@ + hex_bytes(value, 16),
{
    push_hex(out, value, 16);
}

/// Write the two hex digits of `value` to the serial output `out`.
pub fn write_hex_u8(value: u8, out: &mut Vec<u8>)
    ensures
        final(out)@ == old(out)@ + hex_bytes(value as u64, 2),
{
    push_hex(out, value as u64, 2);
}

/// Write the four hex digits of `value` to the serial output `out`.
pub fn write_hex_u16(value: u16, out: &mut Vec<u8>)
    ensures
        final(out)@ == old(out)@ + hex_bytes(value as u64, 4),
{
    push_hex(out, value as u64, 4);
}

/// Append the bytes of `s` to `out`.
pub fn push_str(out: &mut Vec<u8>, s: &str)
    ensures
        final(out)@ == old(out)@ + s.spec_bytes(),
{
    let b = s.as_bytes();
    let mut i: usize = 0;
    while i < b.len()
        invariant
            b@ == s.spec_bytes(),
            i <= b@.len(),
            out@ == old(out)@ + b@.subrange(0, i as int),
        decreases b@.len() - i,
    {
        out.push(b[i]);
        assert(b@.subrange(0, i + 1) =~= b@.subrange(0, i as int).push(b@[i as int]));
        i = i + 1;
    }
    assert(b@.subrange(0, b@.len() as int) =~= b@);
}

/// The hex text of a number is ASCII.
pub proof fn lemma_hex_ascii(value: u64)
    ensures
        is_ascii_bytes(hex_u64_bytes(value)),
{
    let t = hex_u64_bytes(value);
    assert forall|i: int| 0 <= i < t.len() implies t[i] < 128 by {
        if i >= 2 {
            let k = 16 - 1 - (i - 2);
            let n = nibble(value, k);
            assert(0 <= n < 16) by {
                let sh = (4 * k) as u64;
                let v = (value >> sh) & 0xF;
                assert(v <= 0xF) by (bit_vector) requires v == (value >> sh) & 0xF;
            }
            assert(t[i] == hex_digit(n));
        }
    }
}

/// ASCII bytes read as characters encode back to the same bytes.
pub proof fn lemma_ascii_encode(t: Seq<u8>)
    requires
        is_ascii_bytes(t),
    ensures
        encode_utf8(ascii_chars(t)) == t,
{
    let chars = ascii_chars(t);
    assert(is_ascii_chars(chars));
    is_ascii_chars_encode_utf8(chars);
    assert forall|i: int| 0 <= i < t.len() implies encode_utf8(chars)[i] == t[i] by {
        let b = t[i];
        assert((b as char) as u8 == b);
    }
    assert(encode_utf8(chars) =~= t);
}

/// Encoding a concatenation is concatenating the encodings.
pub proof fn lemma_encode_concat(a: Seq<char>, b: Seq<char>)
    ensures
        encode_utf8(a + b) == encode_utf8(a) + encode_utf8(b),
    decreases a.len(),
{
    if a.len() == 0 {
        assert(a + b =~= b);
        assert(encode_utf8(a) + encode_utf8(b) =~= encode_utf8(b));
    } else {
        lemma_encode_concat(a.drop_first(), b);
        assert((a + b).drop_first() =~= a.drop_first() + b);
        assert((a + b)[0] == a[0]);
        assert(encode_utf8(a + b) =~= encode_scalar(a[0] as u32) + (encode_utf8(a.drop_first()) + encode_utf8(b)));
    }
}

/// Append the UTF-8 encoding of `cs` to `out`.
pub fn push_chars(out: &mut Vec<u8>, cs: &Vec<char>)
    ensures
        final(out)@ == old(out)@ + encode_utf8(cs@),
{
    let mut i: usize = 0;
    while i < cs.len()
        invariant
            i <= cs@.len(),
            out@ == old(out)@ + encode_utf8(cs@.take(i as int)),
        decreases cs@.len() - i,
    {
        let e = crate::fmt::encode_char(cs[i]);
        let mut k: usize = 0;
        let ghost before = out@;
        while k < e.len()
            invariant
                k <= e@.len(),
                out@ == before + e@.take(k as int),
            decreases e@.len() - k,
        {
            out.push(e[k]);
            assert(e@.take(k + 1) =~= e@.take(k as int).push(e@[k as int]));
            k = k + 1;
        }
        proof {
            assert(e@.take(e@.len() as int) =~= e@);
            assert(cs@.take(i + 1) =~= cs@.take(i as int) + seq![cs@[i as int]]);
            lemma_encode_concat(cs@.take(i as int), seq![cs@[i as int]]);
        }
        i = i + 1;
    }
    assert(cs@.take(cs@.len() as int) =~= cs@);
}

/// The characters of `s`.
pub fn chars_of(s: &str) -> (v: Vec<char>)
    ensures
        v@ == s@,
{
    broadcast use vstd::string::axiom_spec_iter;
    let mut v: Vec<char> = Vec::new();
    for c in it: s.chars()
        invariant
            v@ == it.seq().take(it.index() as int),
    {
        v.push(c);
    }
    v
}

/// The result of comparing the first `count` bytes of `a` and `b`: the
/// difference of the first pair that differs, or 0 when none does.
pub open spec fn first_difference(a: Seq<u8>, b: Seq<u8>, count: int) -> int
    decreases count,
{
    if count <= 0 {
        0
    } else if first_difference(a, b, count - 1) != 0 {
        first_difference(a, b, count - 1)
    } else if a[count - 1] != b[count - 1] {
        a[count - 1] - b[count - 1]
    } else {
        0
    }
}

/// Compare the first `count` bytes of `a` and `b`, as C's `memcmp` does: the
/// difference `a[i] - b[i]` at the first index where they differ, else 0.
pub fn compare_bytes(a: &[u8], b: &[u8], count: usize) -> (r: i32)
    requires
        count <= a@.len(),
        count <= b@.len(),
    ensures
        r == first_difference(a@, b@, count as int),
        r == 0 <==> (forall|i: int| 0 <= i < count ==> a@[i] == b@[i]),
{
    let mut i: usize = 0;
    while i < count
        invariant
            i <= count,
            count <= a@.len(),
            count <= b@.len(),
            first_difference(a@, b@, i as int) == 0,
            forall|j: int| 0 <= j < i ==> a@[j] == b@[j],
        decreases count - i,
    {
        let byte_a = a[i];
        let byte_b = b[i];
        if byte_a != byte_b {
            proof { lemma_difference_stays(a@, b@, i as int + 1, count as int); }
            return byte_a as i32 - byte_b as i32;
        }
        i = i + 1;
    }
    0
}

proof fn lemma_difference_stays(a: Seq<u8>, b: Seq<u8>, k: int, n: int)
    requires
        0 <= k <= n,
        first_difference(a, b, k) != 0,
    ensures
        first_difference(a, b, n) == first_difference(a, b, k),
    decreases n - k,
{
    if k < n {
        lemma_difference_stays(a, b, k, n - 1);
    }
}

} // verus!
