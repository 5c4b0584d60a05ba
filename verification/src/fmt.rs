//! String building into a caller's byte buffer, without allocation.

use vstd::prelude::*;
use vstd::string::StringSliceAdditionalSpecFns;
use vstd::utf8::*;

verus! {

/// A string builder over a fixed buffer: the bytes before `position` are what has been
/// written, always valid UTF-8.
pub struct StringWriter<'a> {
    pub buffer: &'a mut [u8],
    pub position: usize,
}

impl<'a> StringWriter<'a> {
    /// The bytes written so far.
    pub open spec fn written(&self) -> Seq<u8> {
        self.buffer@.subrange(0, self.position as int)
    }

    /// The writer's invariant.
    pub open spec fn wf(&self) -> bool {
        &&& self.position <= self.buffer@.len()
        &&& valid_utf8(self.written())
    }

    /// A writer at the start of `buffer`.
    pub fn new(buffer: &'a mut [u8]) -> (w: Self)
        ensures
            w.wf(),
            w.position == 0,
            w.buffer@ == old(buffer)@,
    {
        let w = StringWriter { buffer, position: 0 };
        proof {
            assert(w.written() =~= Seq::<u8>::empty());
            encode_utf8_valid_utf8(Seq::<char>::empty());
            assert(encode_utf8(Seq::<char>::empty()) =~= Seq::<u8>::empty());
        }
        w
    }

    /// Append `bytes`, valid UTF-8; refused, with nothing written, when they do not fit.
    fn write_bytes(&mut self, bytes: &[u8]) -> (r: Result<(), ()>)
        requires
            old(self).wf(),
            valid_utf8(bytes@),
        ensures
            final(self).wf(),
            final(self).buffer@.len() == old(self).buffer@.len(),
            old(self).position + bytes@.len() > old(self).buffer@.len() ==> r is Err
                && final(self).position == old(self).position && final(self).buffer@ == old(self).buffer@,
            old(self).position + bytes@.len() <= old(self).buffer@.len() ==> r is Ok
                && final(self).written() == old(self).written() + bytes@
                && final(self).position == old(self).position + bytes@.len()
                && (forall|j: int| final(self).position <= j < final(self).buffer@.len()
                    ==> final(self).buffer@[j] == old(self).buffer@[j]),
    {
        if bytes.len() > self.buffer.len() - self.position {
            return Err(());
        }
        let start = self.position;
        let blen = self.buffer.len();
        assert(start + bytes@.len() <= blen);
        let mut i: usize = 0;
        while i < bytes.len()
            invariant
                start == old(self).position,
                start + bytes@.len() <= self.buffer@.len(),
                start + bytes@.len() <= usize::MAX,
                self.buffer@.len() == old(self).buffer@.len(),
                self.position == start,
                i <= bytes@.len(),
                forall|j: int| 0 <= j < start ==> self.buffer@[j] == old(self).buffer@[j],
                forall|j: int| 0 <= j < i ==> self.buffer@[start + j] == bytes@[j],
                forall|j: int| start + i <= j < self.buffer@.len() ==> self.buffer@[j] == old(self).buffer@[j],
            decreases bytes@.len() - i,
        {
            let idx: usize = start + i;
            self.buffer[idx] = bytes[i];
            i = i + 1;
        }
        self.position = start + bytes.len();
        proof {
            assert(self.written() =~= old(self).written() + bytes@);
            valid_utf8_concat(old(self).written(), bytes@);
        }
        Ok(())
    }

    /// Append the bytes of `s`; refused, with nothing written, when they do not fit.
    pub fn write_str(&mut self, s: &str) -> (r: Result<(), ()>)
        requires
            old(self).wf(),
        ensures
            final(self).wf(),
            final(self).buffer@.len() == old(self).buffer@.len(),
            old(self).position + s.spec_bytes().len() > old(self).buffer@.len() ==> r is Err
                && final(self).position == old(self).position && final(self).buffer@ == old(self).buffer@,
            old(self).position + s.spec_bytes().len() <= old(self).buffer@.len() ==> r is Ok
                && final(self).written() == old(self).written() + s.spec_bytes()
                && final(self).position == old(self).position + s.spec_bytes().len()
                && (forall|j: int| final(self).position <= j < final(self).buffer@.len()
                    ==> final(self).buffer@[j] == old(self).buffer@[j]),
    {
        proof {
            encode_utf8_valid_utf8(s@);
        }
        self.write_bytes(s.as_bytes())
    }

    /// Append the UTF-8 encoding of `c`; refused, with nothing written, when it does not
    /// fit.
    pub fn write_char(&mut self, c: char) -> (r: Result<(), ()>)
        requires
            old(self).wf(),
        ensures
            final(self).wf(),
            final(self).buffer@.len() == old(self).buffer@.len(),
            old(self).position + char_bytes(c).len() > old(self).buffer@.len() ==> r is Err
                && final(self).position == old(self).position && final(self).buffer@ == old(self).buffer@,
            old(self).position + char_bytes(c).len() <= old(self).buffer@.len() ==> r is Ok
                && final(self).written() == old(self).written() + char_bytes(c)
                && final(self).position == old(self).position + char_bytes(c).len()
                && (forall|j: int| final(self).position <= j < final(self).buffer@.len()
                    ==> final(self).buffer@[j] == old(self).buffer@[j]),
    {
        let encoded = encode_char(c);
        proof {
            encode_utf8_valid_utf8(seq![c]);
        }
        self.write_bytes(encoded.as_slice())
    }

    /// The text written so far.
    pub fn as_str(&self) -> (s: &str)
        requires
            self.wf(),
        ensures
            s.spec_bytes() == self.written(),
            s@ == decode_utf8(self.written()),
    {
        let s = crate::util::utf8_str(&self.buffer[0..self.position]);
        proof {
            assert(self.buffer@.subrange(0, self.position as int) == self.written());
            encode_utf8_decode_utf8(s@);
        }
        s
    }

    /// The number of bytes written.
    pub fn len(&self) -> (n: usize)
        ensures
            n == self.position,
    {
        self.position
    }

    /// Whether nothing has been written.
    pub fn is_empty(&self) -> (b: bool)
        ensures
            b == (self.position == 0),
    {
        self.position == 0
    }
}

/// The UTF-8 encoding of one character.
pub open spec fn char_bytes(c: char) -> Seq<u8> {
    encode_utf8(seq![c])
}

/// Encode `c` as UTF-8.
pub(crate) fn encode_char(c: char) -> (v: Vec<u8>)
    ensures
        v@ == char_bytes(c),
{
    let x = c as u32;
    proof {
        char_is_scalar(c);
        assert(seq![c].drop_first() =~= Seq::<char>::empty());
        assert(encode_utf8(Seq::<char>::empty()) =~= Seq::<u8>::empty());
        assert(seq![c][0] == c);
        assert(encode_utf8(seq![c]) =~= encode_scalar(x));
    }
    let mut v: Vec<u8> = Vec::new();
    if x <= 0x7F {
        v.push((x & 0x7F) as u8);
    } else if x <= 0x7FF {
        v.push(0xC0 | ((x >> 6) & 0x1F) as u8);
        v.push(0x80 | (x & 0x3F) as u8);
    } else if x <= 0xFFFF {
        v.push(0xE0 | ((x >> 12) & 0x0F) as u8);
        v.push(0x80 | ((x >> 6) & 0x3F) as u8);
        v.push(0x80 | (x & 0x3F) as u8);
    } else {
        v.push(0xF0 | ((x >> 18) & 0x7) as u8);
        v.push(0x80 | ((x >> 12) & 0x3F) as u8);
        v.push(0x80 | ((x >> 6) & 0x3F) as u8);
        v.push(0x80 | (x & 0x3F) as u8);
    }
    proof {
        assert(v@ =~= encode_scalar(x));
    }
    v
}

/// The ASCII digit of a value below 10.
pub open spec fn digit(d: int) -> u8 {
    (48 + d) as u8
}

/// The decimal digits of `v`, least significant first; a single `0` for zero.
pub open spec fn digits_rev(v: nat) -> Seq<u8>
    decreases v,
{
    if v < 10 {
        seq![digit(v as int)]
    } else {
        seq![digit((v % 10) as int)] + digits_rev(v / 10)
    }
}

/// The decimal representation of `v`: its digits, most significant first, with no
/// leading zero.
pub open spec fn decimal_bytes(v: nat) -> Seq<u8> {
    digits_rev(v).reverse()
}

/// Ten to the power `k`.
pub open spec fn pow10(k: nat) -> nat
    decreases k,
{
    if k == 0 { 1 } else { 10 * pow10((k - 1) as nat) }
}

/// A number below `10^k` has at most `k` digits.
pub proof fn lemma_digits_rev_len(v: nat, k: nat)
    requires
        1 <= k,
        v < pow10(k),
    ensures
        digits_rev(v).len() <= k,
    decreases k,
{
    if v >= 10 {
        if k == 1 {
            assert(pow10(1) == 10) by { reveal_with_fuel(pow10, 2); }
        } else {
            let p = pow10((k - 1) as nat);
            assert(pow10(k) == 10 * p);
            assert(v / 10 < p) by (nonlinear_arith)
                requires v < 10 * p;
            lemma_digits_rev_len(v / 10, (k - 1) as nat);
        }
    }
}

/// A 64-bit number has at most 20 decimal digits, each an ASCII digit.
pub proof fn lemma_u64_digits(v: u64)
    ensures
        digits_rev(v as nat).len() <= 20,
        digits_rev(v as nat).len() >= 1,
        forall|i: int| 0 <= i < digits_rev(v as nat).len() ==> 48 <= #[trigger] digits_rev(v as nat)[i] <= 57,
{
    assert(pow10(20) == 100000000000000000000nat) by { reveal_with_fuel(pow10, 21); }
    lemma_digits_rev_len(v as nat, 20);
    lemma_digits_ascii(v as nat);
}

/// Every digit is an ASCII digit.
pub proof fn lemma_digits_ascii(v: nat)
    ensures
        digits_rev(v).len() >= 1,
        forall|i: int| 0 <= i < digits_rev(v).len() ==> 48 <= #[trigger] digits_rev(v)[i] <= 57,
    decreases v,
{
    if v >= 10 {
        lemma_digits_ascii(v / 10);
        let r = digits_rev(v / 10);
        assert forall|i: int| 0 <= i < digits_rev(v).len() implies 48 <= #[trigger] digits_rev(v)[i] <= 57 by {
            if i > 0 {
                assert(digits_rev(v)[i] == r[i - 1]);
            }
        }
    }
}

/// Write the decimal representation of `value` at the start of `buffer`; its length.
fn fill_decimal(value: u64, buffer: &mut [u8]) -> (n: usize)
    requires
        decimal_bytes(value as nat).len() <= old(buffer)@.len(),
    ensures
        final(buffer)@.len() == old(buffer)@.len(),
        final(buffer)@.subrange(0, decimal_bytes(value as nat).len() as int) == decimal_bytes(value as nat),
        forall|j: int| decimal_bytes(value as nat).len() <= j < old(buffer)@.len()
            ==> final(buffer)@[j] == old(buffer)@[j],
        n == decimal_bytes(value as nat).len(),
        crate::util::is_ascii_bytes(decimal_bytes(value as nat)),
{
    proof {
        lemma_u64_digits(value);
    }
    if value == 0 {
        buffer[0] = 48;
        proof {
            assert(decimal_bytes(0) =~= seq![48u8]);
            assert(buffer@.subrange(0, 1) =~= seq![48u8]);
        }
        return 1;
    }
    let ghost full = digits_rev(value as nat);
    let mut num = value;
    let mut pos: usize = 0;
    let mut temp = [0u8; 20];
    while num > 0
        invariant
            full == digits_rev(value as nat),
            full.len() <= 20,
            pos <= 20,
            num > 0 ==> temp@.subrange(0, pos as int) + digits_rev(num as nat) == full,
            num == 0 ==> temp@.subrange(0, pos as int) == full,
            temp@.len() == 20,
        decreases num,
    {
        proof {
            let rest = digits_rev(num as nat);
            if num >= 10 {
                assert(rest =~= seq![digit((num % 10) as int)] + digits_rev((num / 10) as nat));
            }
            assert(pos + rest.len() <= 20) by {
                assert((temp@.subrange(0, pos as int) + rest).len() == full.len());
            }
        }
        let d: u8 = (num % 10) as u8;
        temp[pos] = 48 + d;
        num = num / 10;
        pos = pos + 1;
        proof {
            let prev = temp@.subrange(0, pos - 1);
            assert(temp@.subrange(0, pos as int) =~= prev.push(digit(d as int)));
        }
    }
    let ghost out = full.reverse();
    let mut i: usize = 0;
    while i < pos
        invariant
            pos == full.len(),
            pos <= 20,
            temp@.len() == 20,
            temp@.subrange(0, pos as int) == full,
            out == full.reverse(),
            pos <= buffer@.len(),
            buffer@.len() == old(buffer)@.len(),
            i <= pos,
            forall|j: int| 0 <= j < i ==> buffer@[j] == out[j],
            forall|j: int| i <= j < buffer@.len() ==> buffer@[j] == old(buffer)@[j],
        decreases pos - i,
    {
        buffer[i] = temp[pos - 1 - i];
        proof {
            assert(temp@[pos - 1 - i] == temp@.subrange(0, pos as int)[pos - 1 - i]);
        }
        i = i + 1;
    }
    proof {
        assert(buffer@.subrange(0, pos as int) =~= out);
    }
    pos
}

/// Write the decimal representation of `value` at the start of `buffer`.
pub fn format_decimal(value: u64, buffer: &mut [u8]) -> (s: &str)
    requires
        decimal_bytes(value as nat).len() <= old(buffer)@.len(),
    ensures
        final(buffer)@.len() == old(buffer)@.len(),
        final(buffer)@.subrange(0, decimal_bytes(value as nat).len() as int) == decimal_bytes(value as nat),
        forall|j: int| decimal_bytes(value as nat).len() <= j < old(buffer)@.len()
            ==> final(buffer)@[j] == old(buffer)@[j],
        s@ == crate::util::ascii_chars(decimal_bytes(value as nat)),
{
    let n = fill_decimal(value, buffer);
    crate::util::ascii_str(&buffer[0..n])
}

/// `full` cut to at most `n` bytes.
pub open spec fn truncated(full: Seq<u8>, n: int) -> Seq<u8> {
    if full.len() <= n { full } else { full.subrange(0, n) }
}

/// Continue a text cut to the length of `buf`: with `prev` written so far, as much of it
/// as fits, append as much of `bytes` as still fits. Returns the new length.
fn put_bytes(buf: &mut [u8], offset: usize, bytes: &[u8], Ghost(prev): Ghost<Seq<u8>>) -> (r: usize)
    requires
        offset == truncated(prev, old(buf)@.len() as int).len(),
        old(buf)@.subrange(0, offset as int) == truncated(prev, old(buf)@.len() as int),
    ensures
        final(buf)@.len() == old(buf)@.len(),
        r == truncated(prev + bytes@, old(buf)@.len() as int).len(),
        final(buf)@.subrange(0, r as int) == truncated(prev + bytes@, old(buf)@.len() as int),
        forall|j: int| r <= j < old(buf)@.len() ==> final(buf)@[j] == old(buf)@[j],
{
    let mut off = offset;
    let mut i: usize = 0;
    let len = buf.len();
    while i < bytes.len()
        invariant
            len == buf@.len(),
            buf@.len() == old(buf)@.len(),
            offset == truncated(prev, len as int).len(),
            old(buf)@.subrange(0, offset as int) == truncated(prev, len as int),
            i <= bytes@.len(),
            off == truncated(prev + bytes@.subrange(0, i as int), len as int).len(),
            buf@.subrange(0, off as int) == truncated(prev + bytes@.subrange(0, i as int), len as int),
            forall|j: int| off <= j < len ==> buf@[j] == old(buf)@[j],
        decreases bytes@.len() - i,
    {
        let ghost before = buf@;
        let ghost p = prev + bytes@.subrange(0, i as int);
        let ghost q = prev + bytes@.subrange(0, i + 1);
        assert(q =~= p.push(bytes@[i as int]));
        if off < len {
            buf[off] = bytes[i];
            off = off + 1;
            proof {
                assert(p.len() < len);
                assert(buf@.subrange(0, off as int) =~= before.subrange(0, off - 1).push(bytes@[i as int]));
            }
        } else {
            proof {
                assert(truncated(q, len as int) =~= truncated(p, len as int));
            }
        }
        i = i + 1;
    }
    assert(bytes@.subrange(0, bytes@.len() as int) =~= bytes@);
    off
}

/// `put_bytes` for one byte.
fn put_byte(buf: &mut [u8], offset: usize, b: u8, Ghost(prev): Ghost<Seq<u8>>) -> (r: usize)
    requires
        offset == truncated(prev, old(buf)@.len() as int).len(),
        old(buf)@.subrange(0, offset as int) == truncated(prev, old(buf)@.len() as int),
    ensures
        final(buf)@.len() == old(buf)@.len(),
        r == truncated(prev.push(b), old(buf)@.len() as int).len(),
        final(buf)@.subrange(0, r as int) == truncated(prev.push(b), old(buf)@.len() as int),
        forall|j: int| r <= j < old(buf)@.len() ==> final(buf)@[j] == old(buf)@[j],
{
    let ghost before = buf@;
    if offset < buf.len() {
        buf[offset] = b;
        proof {
            assert(buf@.subrange(0, offset + 1) =~= before.subrange(0, offset as int).push(b));
        }
        offset + 1
    } else {
        proof {
            assert(truncated(prev.push(b), buf@.len() as int) =~= truncated(prev, buf@.len() as int));
        }
        offset
    }
}

/// Append the decimal representation of `value` to `out`.
pub fn push_decimal(out: &mut Vec<u8>, value: u64)
    ensures
        final(out)@ == old(out)@ + decimal_bytes(value as nat),
{
    let mut temp = [0u8; 20];
    proof {
        lemma_u64_digits(value);
    }
    let n = fill_decimal(value, &mut temp);
    let ghost d = decimal_bytes(value as nat);
    let mut i: usize = 0;
    while i < n
        invariant
            d == decimal_bytes(value as nat),
            n == d.len(),
            n <= 20,
            temp@.len() == 20,
            temp@.subrange(0, n as int) == d,
            i <= n,
            out@ == old(out)@ + d.subrange(0, i as int),
        decreases n - i,
    {
        out.push(temp[i]);
        proof {
            assert(temp@[i as int] == temp@.subrange(0, n as int)[i as int]);
            assert(d.subrange(0, i + 1) =~= d.subrange(0, i as int).push(d[i as int]));
        }
        i = i + 1;
    }
    assert(d.subrange(0, n as int) =~= d);
}

/// The text of `full` cut to the length of `buf`, written at its start; the string
/// written.
pub fn write_truncated<'a>(buf: &'a mut [u8], full: &Vec<u8>) -> (s: &'a str)
    requires
        crate::util::is_ascii_bytes(full@),
    ensures
        final(buf)@.len() == old(buf)@.len(),
        final(buf)@.subrange(0, truncated(full@, old(buf)@.len() as int).len() as int)
            == truncated(full@, old(buf)@.len() as int),
        forall|j: int| truncated(full@, old(buf)@.len() as int).len() <= j < old(buf)@.len()
            ==> final(buf)@[j] == old(buf)@[j],
        s@ == crate::util::ascii_chars(truncated(full@, old(buf)@.len() as int)),
        s.spec_bytes() == truncated(full@, old(buf)@.len() as int),
{
    proof {
        assert(old(buf)@.subrange(0, 0) =~= truncated(Seq::<u8>::empty(), old(buf)@.len() as int));
    }
    let n = put_bytes(buf, 0, full.as_slice(), Ghost(Seq::empty()));
    proof {
        assert(Seq::<u8>::empty() + full@ =~= full@);
        assert(crate::util::is_ascii_bytes(buf@.subrange(0, n as int)));
        crate::util::lemma_ascii_encode(buf@.subrange(0, n as int));
    }
    crate::util::ascii_str(&buf[0..n])
}

} // verus!
