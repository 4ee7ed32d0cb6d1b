//! A bounds-checked read head over a borrowed byte slice.
//!
//! The cursor tracks how many bytes have been consumed since it was created,
//! which is what the alignment rules of the archive formats are measured
//! against.  Skipping clamps at the end of the buffer and never fails;
//! every read either returns the requested bytes or reports that too few
//! remain.

use vstd::prelude::*;
use vstd::slice::slice_index_get;
use vstd::slice::slice_subrange;
use vstd::utf8::decode_utf8;
use vstd::utf8::valid_utf8;

verus! {

/// True when `b` is the ASCII code of an octal digit.
pub open spec fn is_octal_digit(b: u8) -> bool {
    0x30 <= b <= 0x37
}

/// True when every byte of `s` is an ASCII octal digit.
pub open spec fn all_octal(s: Seq<u8>) -> bool {
    forall|i: int| 0 <= i < s.len() ==> is_octal_digit(#[trigger] s[i])
}

/// The value of `s` read as ASCII octal digits, most significant first.
pub open spec fn octal_value(s: Seq<u8>) -> int
    decreases s.len(),
{
    if s.len() == 0 {
        0
    } else {
        octal_value(s.drop_last()) * 8 + (s.last() - 0x30)
    }
}

/// True when `b` is the ASCII code of a hexadecimal digit, in either case.
pub open spec fn is_hex_digit(b: u8) -> bool {
    (0x30 <= b <= 0x39) || (0x41 <= b <= 0x46) || (0x61 <= b <= 0x66)
}

/// True when every byte of `s` is an ASCII hexadecimal digit.
pub open spec fn all_hex(s: Seq<u8>) -> bool {
    forall|i: int| 0 <= i < s.len() ==> is_hex_digit(#[trigger] s[i])
}

/// The value of one ASCII hexadecimal digit.
pub open spec fn hex_digit_value(b: u8) -> int {
    if 0x30 <= b <= 0x39 {
        b - 0x30
    } else if 0x41 <= b <= 0x46 {
        b - 0x37
    } else {
        b - 0x57
    }
}

/// The value of `s` read as ASCII hexadecimal digits, most significant first.
pub open spec fn hex_value(s: Seq<u8>) -> int
    decreases s.len(),
{
    if s.len() == 0 {
        0
    } else {
        hex_value(s.drop_last()) * 16 + hex_digit_value(s.last())
    }
}

/// `8 ^ n`, the number of values that `n` octal digits can take.
pub open spec fn pow8(n: nat) -> int
    decreases n,
{
    if n == 0 {
        1
    } else {
        8 * pow8((n - 1) as nat)
    }
}

/// `16 ^ n`, the number of values that `n` hexadecimal digits can take.
pub open spec fn pow16(n: nat) -> int
    decreases n,
{
    if n == 0 {
        1
    } else {
        16 * pow16((n - 1) as nat)
    }
}

/// A sequence of octal digits is non-negative and below `8 ^ length`.
pub proof fn lemma_octal_value_bound(s: Seq<u8>)
    requires
        all_octal(s),
    ensures
        0 <= octal_value(s) < pow8(s.len()),
    decreases s.len(),
{
    if s.len() > 0 {
        assert(forall|i: int|
            0 <= i < s.drop_last().len() ==> s.drop_last()[i] == #[trigger] s[i]);
        lemma_octal_value_bound(s.drop_last());
    }
}

/// `8 ^ n` grows with `n`.
pub proof fn lemma_pow8_mono(a: nat, b: nat)
    requires
        a <= b,
    ensures
        0 < pow8(a) <= pow8(b),
    decreases b,
{
    if b > 0 {
        if a == b {
            lemma_pow8_mono((a - 1) as nat, (b - 1) as nat);
        } else {
            lemma_pow8_mono(a, (b - 1) as nat);
        }
    }
}

/// `16 ^ n` grows with `n`.
pub proof fn lemma_pow16_mono(a: nat, b: nat)
    requires
        a <= b,
    ensures
        0 < pow16(a) <= pow16(b),
    decreases b,
{
    if b > 0 {
        if a == b {
            lemma_pow16_mono((a - 1) as nat, (b - 1) as nat);
        } else {
            lemma_pow16_mono(a, (b - 1) as nat);
        }
    }
}

/// The byte order in which the legacy binary format stores its 16-bit words.
#[derive(Copy, Clone, Debug, PartialEq, Eq, PartialOrd, Ord, Hash)]
pub enum Endianness {
    Big,
    Little,
}

impl Endianness {
    /// The 16-bit value stored as the bytes `b0`, `b1` in this byte order.
    pub open spec fn spec_u16_of(self, b0: u8, b1: u8) -> u16 {
        match self {
            Endianness::Big => (b0 * 256 + b1) as u16,
            Endianness::Little => (b1 * 256 + b0) as u16,
        }
    }

    /// Assembles two bytes into a 16-bit value in this byte order.
    pub fn u8_array_to_u16(self, bytes: [u8; 2]) -> (r: u16)
        ensures
            r == self.spec_u16_of(bytes@[0], bytes@[1]),
    {
        let b0 = *vstd::array::array_index_get(&bytes, 0);
        let b1 = *vstd::array::array_index_get(&bytes, 1);
        match self {
            Endianness::Big => (b0 as u16) * 256 + (b1 as u16),
            Endianness::Little => (b1 as u16) * 256 + (b0 as u16),
        }
    }
}

/// Relies on core::str::from_utf8: it returns `Ok` exactly when the bytes
/// are valid UTF-8, and the returned string then views as their decoding.
#[verifier::external_body]
fn bytes_to_str<'a>(bytes: &'a [u8]) -> (r: Option<&'a str>)
    ensures
        match r {
            Some(s) => valid_utf8(bytes@) && s@ == decode_utf8(bytes@),
            None => !valid_utf8(bytes@),
        },
{
    core::str::from_utf8(bytes).ok()
}

/// Parses a whole slice of ASCII octal digits, most significant first.
fn parse_octal(bytes: &[u8]) -> (r: Option<u64>)
    requires
        bytes@.len() <= 21,
    ensures
        match r {
            Some(v) => bytes@.len() > 0 && all_octal(bytes@) && v == octal_value(bytes@),
            None => !(bytes@.len() > 0 && all_octal(bytes@)),
        },
{
    let n = bytes.len();
    if n == 0 {
        return None;
    }
    let mut acc: u64 = 0;
    let mut i: usize = 0;
    while i < n
        invariant
            0 <= i <= n,
            n == bytes@.len(),
            n <= 21,
            all_octal(bytes@.take(i as int)),
            acc == octal_value(bytes@.take(i as int)),
            0 <= octal_value(bytes@.take(i as int)) < pow8(i as nat),
        decreases n - i,
    {
        let b = *slice_index_get(bytes, i);
        if b < 0x30 || b > 0x37 {
            return None;
        }
        proof {
            assert(bytes@.take(i + 1).drop_last() =~= bytes@.take(i as int));
            lemma_pow8_mono((i + 1) as nat, 21);
            reveal_with_fuel(pow8, 22);
        }
        acc = acc * 8 + ((b - 0x30) as u64);
        i = i + 1;
    }
    proof {
        assert(bytes@.take(n as int) =~= bytes@);
    }
    Some(acc)
}

/// Parses a whole slice of eight ASCII hexadecimal digits, most significant
/// first.
fn parse_hex(bytes: &[u8]) -> (r: Option<u32>)
    requires
        bytes@.len() == 8,
    ensures
        match r {
            Some(v) => all_hex(bytes@) && v == hex_value(bytes@),
            None => !all_hex(bytes@),
        },
{
    let n = bytes.len();
    let mut acc: u32 = 0;
    let mut i: usize = 0;
    while i < n
        invariant
            0 <= i <= n,
            n == bytes@.len(),
            n == 8,
            all_hex(bytes@.take(i as int)),
            acc == hex_value(bytes@.take(i as int)),
            0 <= hex_value(bytes@.take(i as int)) < pow16(i as nat),
        decreases n - i,
    {
        let b = *slice_index_get(bytes, i);
        let d: u32 = if 0x30 <= b && b <= 0x39 {
            (b - 0x30) as u32
        } else if 0x41 <= b && b <= 0x46 {
            (b - 0x37) as u32
        } else if 0x61 <= b && b <= 0x66 {
            (b - 0x57) as u32
        } else {
            return None;
        };
        proof {
            assert(bytes@.take(i + 1).drop_last() =~= bytes@.take(i as int));
            lemma_pow16_mono((i + 1) as nat, 8);
            reveal_with_fuel(pow16, 9);
        }
        acc = acc * 16 + d;
        i = i + 1;
    }
    proof {
        assert(bytes@.take(n as int) =~= bytes@);
    }
    Some(acc)
}

/// A read head over a borrowed byte slice.  `pos()` counts the bytes
/// consumed since the cursor was created; it never passes the end of the
/// slice.
pub struct ByteArray<'a> {
    binary: &'a [u8],
    current: usize,
}

impl<'a> ByteArray<'a> {
    /// The whole underlying byte slice.
    pub closed spec fn data(self) -> Seq<u8> {
        self.binary@
    }

    /// How many bytes have been consumed.
    pub closed spec fn pos(self) -> int {
        self.current as int
    }

    /// The consumed count never passes the end of the slice.
    pub open spec fn wf(self) -> bool {
        0 <= self.pos() <= self.data().len()
    }

    /// The bytes not yet consumed.
    pub open spec fn spec_remaining(self) -> Seq<u8> {
        self.data().skip(self.pos())
    }

    /// Starts reading at the beginning of `binary`.
    pub fn new(binary: &'a [u8]) -> (r: Self)
        ensures
            r.wf(),
            r.data() == binary@,
            r.pos() == 0,
    {
        Self { binary, current: 0 }
    }

    /// How many bytes remain to be consumed.
    pub fn remaining_len(&self) -> (r: usize)
        requires
            self.wf(),
        ensures
            r == self.data().len() - self.pos(),
    {
        self.binary.len() - self.current
    }

    /// Gives up the cursor and returns the unconsumed tail.
    pub fn into_inner(self) -> (r: &'a [u8])
        requires
            self.wf(),
        ensures
            r@ == self.spec_remaining(),
    {
        let r = slice_subrange(self.binary, self.current, self.binary.len());
        proof {
            assert(r@ =~= self.spec_remaining());
        }
        r
    }

    /// Reads the next byte; `None` when none remain.
    pub fn proceed_byte(&mut self) -> (r: Option<u8>)
        requires
            old(self).wf(),
        ensures
            final (self).wf(),
            final (self).data() == old(self).data(),
            match r {
                Some(x) => old(self).pos() < old(self).data().len() && x == old(self).data()[old(
                    self,
                ).pos()] && final (self).pos() == old(self).pos() + 1,
                None => old(self).pos() == old(self).data().len() && *final(self) == *old(self),
            },
    {
        if self.current < self.binary.len() {
            let b = *slice_index_get(self.binary, self.current);
            self.current = self.current + 1;
            Some(b)
        } else {
            None
        }
    }

    /// Reads the next `n` bytes as a borrowed sub-slice; `None` when fewer
    /// remain.
    pub fn proceed_bytes(&mut self, n: usize) -> (r: Option<&'a [u8]>)
        requires
            old(self).wf(),
        ensures
            final (self).wf(),
            final (self).data() == old(self).data(),
            match r {
                Some(bs) => n <= old(self).data().len() - old(self).pos() && bs@ == old(
                    self,
                ).data().subrange(old(self).pos(), old(self).pos() + n) && final (self).pos()
                    == old(self).pos() + n,
                None => n > old(self).data().len() - old(self).pos() && *final(self) == *old(self),
            },
    {
        if n <= self.binary.len() - self.current {
            let bs = slice_subrange(self.binary, self.current, self.current + n);
            self.current = self.current + n;
            Some(bs)
        } else {
            None
        }
    }

    /// Reads the next `n` bytes as UTF-8 text; `None` on truncation or on
    /// bytes that are not valid UTF-8.
    pub fn proceed_str(&mut self, n: usize) -> (r: Option<&'a str>)
        requires
            old(self).wf(),
        ensures
            final (self).wf(),
            final (self).data() == old(self).data(),
            match r {
                Some(s) => n <= old(self).data().len() - old(self).pos() && valid_utf8(
                    old(self).data().subrange(old(self).pos(), old(self).pos() + n),
                ) && s@ == decode_utf8(
                    old(self).data().subrange(old(self).pos(), old(self).pos() + n),
                ) && final (self).pos() == old(self).pos() + n,
                None => !(n <= old(self).data().len() - old(self).pos() && valid_utf8(
                    old(self).data().subrange(old(self).pos(), old(self).pos() + n),
                )),
            },
    {
        match self.proceed_bytes(n) {
            Some(bs) => bytes_to_str(bs),
            None => None,
        }
    }

    /// Reads `n` ASCII octal digits as a 32-bit value; `None` on truncation
    /// or on a byte that is not an octal digit.
    pub fn proceed_str_into_octal_u32(&mut self, n: usize) -> (r: Option<u32>)
        requires
            old(self).wf(),
            n <= 10,
        ensures
            final (self).wf(),
            final (self).data() == old(self).data(),
            match r {
                Some(v) => n > 0 && n <= old(self).data().len() - old(self).pos() && all_octal(
                    old(self).data().subrange(old(self).pos(), old(self).pos() + n),
                ) && v == octal_value(
                    old(self).data().subrange(old(self).pos(), old(self).pos() + n),
                ) && final (self).pos() == old(self).pos() + n,
                None => !(n > 0 && n <= old(self).data().len() - old(self).pos() && all_octal(
                    old(self).data().subrange(old(self).pos(), old(self).pos() + n),
                )),
            },
    {
        match self.proceed_bytes(n) {
            Some(bs) => match parse_octal(bs) {
                Some(v) => {
                    proof {
                        lemma_octal_value_bound(bs@);
                        lemma_pow8_mono(bs@.len(), 10);
                        reveal_with_fuel(pow8, 11);
                    }
                    Some(v as u32)
                },
                None => None,
            },
            None => None,
        }
    }

    /// Reads `n` ASCII octal digits as a 64-bit value; `None` on truncation
    /// or on a byte that is not an octal digit.
    pub fn proceed_str_into_octal_u64(&mut self, n: usize) -> (r: Option<u64>)
        requires
            old(self).wf(),
            n <= 21,
        ensures
            final (self).wf(),
            final (self).data() == old(self).data(),
            match r {
                Some(v) => n > 0 && n <= old(self).data().len() - old(self).pos() && all_octal(
                    old(self).data().subrange(old(self).pos(), old(self).pos() + n),
                ) && v == octal_value(
                    old(self).data().subrange(old(self).pos(), old(self).pos() + n),
                ) && final (self).pos() == old(self).pos() + n,
                None => !(n > 0 && n <= old(self).data().len() - old(self).pos() && all_octal(
                    old(self).data().subrange(old(self).pos(), old(self).pos() + n),
                )),
            },
    {
        match self.proceed_bytes(n) {
            Some(bs) => parse_octal(bs),
            None => None,
        }
    }

    /// Reads eight ASCII hexadecimal digits as a 32-bit value; `None` on
    /// truncation or on a byte that is not a hexadecimal digit.
    pub fn proceed_str_into_hex(&mut self) -> (r: Option<u32>)
        requires
            old(self).wf(),
        ensures
            final (self).wf(),
            final (self).data() == old(self).data(),
            match r {
                Some(v) => 8 <= old(self).data().len() - old(self).pos() && all_hex(
                    old(self).data().subrange(old(self).pos(), old(self).pos() + 8),
                ) && v == hex_value(
                    old(self).data().subrange(old(self).pos(), old(self).pos() + 8),
                ) && final (self).pos() == old(self).pos() + 8,
                None => !(8 <= old(self).data().len() - old(self).pos() && all_hex(
                    old(self).data().subrange(old(self).pos(), old(self).pos() + 8),
                )),
            },
    {
        match self.proceed_bytes(8) {
            Some(bs) => parse_hex(bs),
            None => None,
        }
    }

    /// Reads two bytes and assembles them in the given byte order; `None`
    /// when fewer than two remain.
    pub fn proceed_u16(&mut self, endianness: Endianness) -> (r: Option<u16>)
        requires
            old(self).wf(),
        ensures
            final (self).wf(),
            final (self).data() == old(self).data(),
            match r {
                Some(v) => old(self).pos() + 2 <= old(self).data().len() && v
                    == endianness.spec_u16_of(
                    old(self).data()[old(self).pos()],
                    old(self).data()[old(self).pos() + 1],
                ) && final (self).pos() == old(self).pos() + 2,
                None => old(self).data().len() - old(self).pos() < 2,
            },
    {
        let b0 = match self.proceed_byte() {
            Some(b) => b,
            None => {
                return None;
            },
        };
        let b1 = match self.proceed_byte() {
            Some(b) => b,
            None => {
                return None;
            },
        };
        Some(endianness.u8_array_to_u16([b0, b1]))
    }

    /// Advances past `n` bytes without inspecting them, clamping at the end
    /// of the buffer.
    pub fn skip_bytes(&mut self, n: usize)
        requires
            old(self).wf(),
        ensures
            final (self).wf(),
            final (self).data() == old(self).data(),
            final (self).pos() == vstd::math::min(
                old(self).pos() + n,
                old(self).data().len() as int,
            ),
    {
        if n <= self.binary.len() - self.current {
            self.current = self.current + n;
        } else {
            self.current = self.binary.len();
        }
    }

    /// Advances to the next position that is a multiple of four, measured
    /// from where the cursor started, clamping at the end of the buffer.
    pub fn skip_to_next_multiple_of_four(&mut self)
        requires
            old(self).wf(),
        ensures
            final (self).wf(),
            final (self).data() == old(self).data(),
            final (self).pos() == vstd::math::min(
                old(self).pos() + ((4 - old(self).pos() % 4) % 4),
                old(self).data().len() as int,
            ),
    {
        let pad = (4 - self.current % 4) % 4;
        self.skip_bytes(pad);
    }
}

} // verus!
