//! Conversion between integers and the bytes of a register.
use vstd::prelude::*;
use vstd::arithmetic::div_mod::lemma_fundamental_div_mod_converse;

use crate::text::str_eq;
use crate::error::{GenApiError, GenApiResult};

verus! {

/// Byte order of a register.
#[derive(Debug, Clone, Copy, PartialEq, Eq, Structural)]
pub enum Endianness {
    LE,
    BE,
}

/// Whether a register holds a two's complement or an unsigned integer.
#[derive(Debug, Clone, Copy, PartialEq, Eq, Structural)]
pub enum Sign {
    Signed,
    Unsigned,
}

impl Default for Endianness {
    fn default() -> (r: Self)
        ensures
            r == Endianness::LE,
    {
        Endianness::LE
    }
}

impl Default for Sign {
    fn default() -> (r: Self)
        ensures
            r == Sign::Unsigned,
    {
        Sign::Unsigned
    }
}

impl Endianness {
    /// `LittleEndian` or `BigEndian`, as a description file writes them.
    pub fn from_text(text: &str) -> (r: Option<Endianness>)
        ensures
            r == (if text@ == "LittleEndian"@ {
                Some(Endianness::LE)
            } else if text@ == "BigEndian"@ {
                Some(Endianness::BE)
            } else {
                None
            }),
    {
        if str_eq(text, "LittleEndian") {
            Some(Endianness::LE)
        } else if str_eq(text, "BigEndian") {
            Some(Endianness::BE)
        } else {
            None
        }
    }
}

impl Sign {
    /// `Signed` or `Unsigned`, as a description file writes them.
    pub fn from_text(text: &str) -> (r: Option<Sign>)
        ensures
            r == (if text@ == "Signed"@ {
                Some(Sign::Signed)
            } else if text@ == "Unsigned"@ {
                Some(Sign::Unsigned)
            } else {
                None
            }),
    {
        if str_eq(text, "Signed") {
            Some(Sign::Signed)
        } else if str_eq(text, "Unsigned") {
            Some(Sign::Unsigned)
        } else {
            None
        }
    }
}

/// `256^n`: the number of values that `n` bytes can hold.
pub open spec fn byte_base(n: nat) -> nat
    decreases n,
{
    if n == 0 {
        1
    } else {
        256 * byte_base((n - 1) as nat)
    }
}

/// The unsigned number that `s` holds with its least significant byte first.
pub open spec fn le_value(s: Seq<u8>) -> nat
    decreases s.len(),
{
    if s.len() == 0 {
        0
    } else {
        s[0] as nat + 256 * le_value(s.drop_first())
    }
}

/// The unsigned number that `s` holds with its most significant byte first.
pub open spec fn be_value(s: Seq<u8>) -> nat
    decreases s.len(),
{
    if s.len() == 0 {
        0
    } else {
        be_value(s.drop_last()) * 256 + s.last() as nat
    }
}

pub open spec fn unsigned_value(s: Seq<u8>, endianness: Endianness) -> nat {
    match endianness {
        Endianness::LE => le_value(s),
        Endianness::BE => be_value(s),
    }
}

/// The register widths, in bytes, that carry an integer.
pub open spec fn is_int_width(n: nat) -> bool {
    n == 1 || n == 2 || n == 4 || n == 8
}

/// The integer that `n` bytes holding the unsigned number `u` stand for.
/// Signed registers are read in two's complement; an unsigned register of
/// eight bytes is reinterpreted as an `i64`, so its top bit is a sign bit too.
pub open spec fn from_unsigned(u: int, n: nat, sign: Sign) -> int {
    if (sign == Sign::Signed || n == 8) && 2 * u >= byte_base(n) {
        u - byte_base(n)
    } else {
        u
    }
}

/// The integer that the bytes `s` stand for.
pub open spec fn int_of_bytes(s: Seq<u8>, endianness: Endianness, sign: Sign) -> int {
    from_unsigned(unsigned_value(s, endianness) as int, s.len(), sign)
}

/// `v` lies in the range of integers that `n` bytes of the given sign hold.
pub open spec fn fits(v: int, n: nat, sign: Sign) -> bool {
    match sign {
        Sign::Signed => -byte_base(n) <= 2 * v < byte_base(n),
        Sign::Unsigned => if n == 8 {
            i64::MIN <= v <= i64::MAX
        } else {
            0 <= v < byte_base(n)
        },
    }
}

/// The number of values of each register width.
pub proof fn lemma_byte_base_values()
    ensures
        byte_base(1) == 0x100,
        byte_base(2) == 0x1_0000,
        byte_base(4) == 0x1_0000_0000,
        byte_base(7) == 0x100_0000_0000_0000,
        byte_base(8) == 0x1_0000_0000_0000_0000,
{
    reveal_with_fuel(byte_base, 9);
}

proof fn lemma_byte_base_mono(a: nat, b: nat)
    requires
        a <= b,
    ensures
        byte_base(a) <= byte_base(b),
    decreases b,
{
    if a < b {
        lemma_byte_base_mono(a, (b - 1) as nat);
    }
}

proof fn lemma_le_bound(s: Seq<u8>)
    ensures
        le_value(s) < byte_base(s.len()),
    decreases s.len(),
{
    if s.len() > 0 {
        lemma_le_bound(s.drop_first());
    }
}

proof fn lemma_be_bound(s: Seq<u8>)
    ensures
        be_value(s) < byte_base(s.len()),
    decreases s.len(),
{
    if s.len() > 0 {
        lemma_be_bound(s.drop_last());
    }
}

/// Splitting little-endian bytes at `i`: the high part is scaled by `256^i`.
proof fn lemma_le_split(s: Seq<u8>, i: int)
    requires
        0 <= i <= s.len(),
    ensures
        le_value(s) == le_value(s.subrange(0, i)) + byte_base(i as nat) * le_value(
            s.subrange(i, s.len() as int),
        ),
    decreases i,
{
    if i == 0 {
        assert(s.subrange(0, s.len() as int) =~= s);
        assert(le_value(s.subrange(0, 0)) == 0);
        assert(byte_base(0) == 1);
        let x = le_value(s);
        assert(byte_base(0) * x == x) by (nonlinear_arith)
            requires
                byte_base(0) == 1,
        ;
    } else {
        let t = s.drop_first();
        lemma_le_split(t, i - 1);
        assert(le_value(s) == s[0] as nat + 256 * le_value(t));
        assert(s.subrange(0, i)[0] == s[0]);
        assert(le_value(s.subrange(0, i)) == s[0] as nat + 256 * le_value(
            s.subrange(0, i).drop_first(),
        ));
        assert(byte_base(i as nat) == 256 * byte_base((i - 1) as nat));
        assert(s.subrange(0, i).drop_first() =~= t.subrange(0, i - 1));
        assert(t.subrange(i - 1, t.len() as int) =~= s.subrange(i, s.len() as int));
        let a = le_value(t.subrange(0, i - 1));
        let b = le_value(s.subrange(i, s.len() as int));
        let p = byte_base((i - 1) as nat);
        assert(le_value(t) == a + p * b);
        assert(le_value(s.subrange(0, i)) == s[0] as nat + 256 * a);
        assert(256 * (a + p * b) == 256 * a + (256 * p) * b) by (nonlinear_arith);
        assert(le_value(s) == s[0] as nat + 256 * a + (256 * p) * b);
        assert(byte_base(i as nat) * b == (256 * p) * b) by (nonlinear_arith)
            requires
                byte_base(i as nat) == 256 * p,
        ;
    }
}

/// Splitting big-endian bytes at `i`: the high part is scaled by `256^(len - i)`.
proof fn lemma_be_split(s: Seq<u8>, i: int)
    requires
        0 <= i <= s.len(),
    ensures
        be_value(s) == be_value(s.subrange(0, i)) * byte_base((s.len() - i) as nat) + be_value(
            s.subrange(i, s.len() as int),
        ),
    decreases s.len() - i,
{
    if i == s.len() {
        assert(s.subrange(0, i) =~= s);
        assert(be_value(s.subrange(i, s.len() as int)) == 0);
        assert(byte_base(0) == 1);
        let x = be_value(s);
        assert(x * byte_base(0) == x) by (nonlinear_arith)
            requires
                byte_base(0) == 1,
        ;
    } else {
        let t = s.drop_last();
        lemma_be_split(t, i);
        let h = s.subrange(i, s.len() as int);
        assert(be_value(s) == be_value(t) * 256 + s.last() as nat);
        assert(h.last() == s.last());
        assert(be_value(h) == be_value(h.drop_last()) * 256 + h.last() as nat);
        assert(byte_base((s.len() - i) as nat) == 256 * byte_base((t.len() - i) as nat));
        assert(t.subrange(0, i) =~= s.subrange(0, i));
        assert(s.subrange(i, s.len() as int).drop_last() =~= t.subrange(i, t.len() as int));
        let a = be_value(s.subrange(0, i));
        let b = be_value(t.subrange(i, t.len() as int));
        let p = byte_base((t.len() - i) as nat);
        assert(be_value(t) == a * p + b);
        assert(be_value(h) == b * 256 + s.last() as nat);
        assert((a * p + b) * 256 == a * (256 * p) + b * 256) by (nonlinear_arith);
        assert(be_value(s) == a * (256 * p) + b * 256 + s.last() as nat);
        assert(a * byte_base((s.len() - i) as nat) == a * (256 * p)) by (nonlinear_arith)
            requires
                byte_base((s.len() - i) as nat) == 256 * p,
        ;
    }
}

/// Reads up to eight bytes as an unsigned number in the given byte order.
fn unsigned_from_slice(slice: &[u8], endianness: Endianness) -> (r: u64)
    requires
        slice@.len() <= 8,
    ensures
        r as nat == unsigned_value(slice@, endianness),
{
    let n = slice.len();
    let mut acc: u64 = 0;
    match endianness {
        Endianness::LE => {
            let mut i: usize = n;
            while i > 0
                invariant
                    n == slice@.len() <= 8,
                    i <= n,
                    acc as nat == le_value(slice@.subrange(i as int, n as int)),
                decreases i,
            {
                proof {
                    lemma_le_bound(slice@.subrange(i as int, n as int));
                    lemma_byte_base_mono((n - i) as nat, 7);
                    lemma_byte_base_values();
                }
                i = i - 1;
                let ghost s = slice@.subrange(i as int, n as int);
                assert(s.drop_first() =~= slice@.subrange(i + 1, n as int));
                acc = slice[i] as u64 + 256 * acc;
            }
            assert(slice@.subrange(0, n as int) =~= slice@);
        },
        Endianness::BE => {
            let mut i: usize = 0;
            while i < n
                invariant
                    n == slice@.len() <= 8,
                    i <= n,
                    acc as nat == be_value(slice@.subrange(0, i as int)),
                decreases n - i,
            {
                proof {
                    lemma_be_bound(slice@.subrange(0, i as int));
                    lemma_byte_base_mono(i as nat, 7);
                    lemma_byte_base_values();
                }
                let ghost s = slice@.subrange(0, i + 1);
                assert(s.drop_last() =~= slice@.subrange(0, i as int));
                acc = acc * 256 + slice[i] as u64;
                i = i + 1;
            }
            assert(slice@.subrange(0, n as int) =~= slice@);
        },
    }
    acc
}

/// Decodes an integer register of 1, 2, 4 or 8 bytes. Narrow signed values
/// are sign-extended, narrow unsigned values zero-extended; eight unsigned
/// bytes are reinterpreted as an `i64`. Any other width is `InvalidBuffer`.
pub fn int_from_slice(slice: &[u8], endianness: Endianness, sign: Sign) -> (r: GenApiResult<i64>)
    ensures
        is_int_width(slice@.len()) <==> r is Ok,
        r matches Ok(v) ==> v as int == int_of_bytes(slice@, endianness, sign),
        r matches Err(e) ==> e == GenApiError::InvalidBuffer,
{
    let n = slice.len();
    if !(n == 1 || n == 2 || n == 4 || n == 8) {
        return Err(GenApiError::InvalidBuffer);
    }
    let u = unsigned_from_slice(slice, endianness);
    proof {
        lemma_byte_base_values();
        if endianness == Endianness::LE {
            lemma_le_bound(slice@);
        } else {
            lemma_be_bound(slice@);
        }
    }
    let v: i64 = if n == 8 {
        if u >= 0x8000_0000_0000_0000 {
            (u - 0x8000_0000_0000_0000) as i64 + i64::MIN
        } else {
            u as i64
        }
    } else {
        let base: u64 = if n == 1 {
            0x100
        } else if n == 2 {
            0x1_0000
        } else {
            0x1_0000_0000
        };
        if sign == Sign::Signed && 2 * u >= base {
            u as i64 - base as i64
        } else {
            u as i64
        }
    };
    Ok(v)
}

/// Encodes `value` into `buf`, whose length of 1, 2, 4 or 8 bytes is the
/// register width. The value is truncated to its low bytes (wrap-around);
/// the sign does not change the bytes written. Any other width is
/// `InvalidBuffer` and leaves `buf` untouched.
pub fn bytes_from_int(value: i64, buf: &mut [u8], endianness: Endianness, sign: Sign) -> (r:
    GenApiResult<()>)
    ensures
        final(buf)@.len() == old(buf)@.len(),
        is_int_width(old(buf)@.len()) <==> r is Ok,
        r is Ok ==> unsigned_value(final(buf)@, endianness) == value as int % (byte_base(
            old(buf)@.len(),
        ) as int),
        r matches Err(e) ==> e == GenApiError::InvalidBuffer && final(buf)@ == old(buf)@,
{
    let n = buf.len();
    if !(n == 1 || n == 2 || n == 4 || n == 8) {
        return Err(GenApiError::InvalidBuffer);
    }
    proof {
        lemma_byte_base_values();
    }
    // The value modulo 2^64.
    let u: u64 = if value >= 0 {
        value as u64
    } else {
        (value + i64::MAX + 1) as u64 + 0x8000_0000_0000_0000
    };
    assert(u as int == value as int % (byte_base(8) as int)) by {
        if value >= 0 {
            lemma_fundamental_div_mod_converse(value as int, byte_base(8) as int, 0, u as int);
        } else {
            lemma_fundamental_div_mod_converse(value as int, byte_base(8) as int, -1, u as int);
        }
    }
    let mut cur: u64 = u;
    match endianness {
        Endianness::LE => {
            let mut i: usize = 0;
            assert(le_value(buf@.subrange(0, 0)) == 0);
            assert(byte_base(0) == 1);
            while i < n
                invariant
                    n == buf@.len() == old(buf)@.len(),
                    i <= n <= 8,
                    le_value(buf@.subrange(0, i as int)) + byte_base(i as nat) * cur == u,
                decreases n - i,
            {
                let ghost prev = buf@;
                let byte = (cur % 256) as u8;
                buf[i] = byte;
                proof {
                    assert(buf@.subrange(0, i as int) =~= prev.subrange(0, i as int));
                    let t = buf@.subrange(0, i + 1);
                    lemma_le_split(t, i as int);
                    assert(t.subrange(0, i as int) =~= buf@.subrange(0, i as int));
                    let last = t.subrange(i as int, i + 1);
                    assert(last[0] == byte);
                    assert(le_value(last.drop_first()) == 0);
                    assert(le_value(last) == byte as nat);
                    let p = byte_base(i as nat);
                    let c = cur as int;
                    assert(p * c == p * (c % 256) + (256 * p) * (c / 256)) by (nonlinear_arith)
                        requires
                            c == 256 * (c / 256) + c % 256,
                    ;
                }
                cur = cur / 256;
                i = i + 1;
            }
            assert(buf@.subrange(0, n as int) =~= buf@);
            proof {
                lemma_le_bound(buf@);
                lemma_byte_base_mono(0, n as nat);
                assert(byte_base(0) == 1);
                assert(cur * byte_base(n as nat) == byte_base(n as nat) * cur);
                lemma_fundamental_div_mod_converse(
                    u as int,
                    byte_base(n as nat) as int,
                    cur as int,
                    le_value(buf@) as int,
                );
            }
        },
        Endianness::BE => {
            let mut i: usize = n;
            assert(be_value(buf@.subrange(n as int, n as int)) == 0);
            assert(byte_base(0) == 1);
            assert(byte_base((n - n) as nat) * cur == cur) by (nonlinear_arith)
                requires
                    byte_base((n - n) as nat) == 1,
            ;
            while i > 0
                invariant
                    n == buf@.len() == old(buf)@.len(),
                    i <= n <= 8,
                    be_value(buf@.subrange(i as int, n as int)) + byte_base((n - i) as nat) * cur
                        == u,
                decreases i,
            {
                let ghost prev = buf@;
                let byte = (cur % 256) as u8;
                buf[i - 1] = byte;
                proof {
                    assert(buf@.subrange(i as int, n as int) =~= prev.subrange(i as int, n as int));
                    let t = buf@.subrange(i - 1, n as int);
                    lemma_be_split(t, 1);
                    assert(t.subrange(1, t.len() as int) =~= buf@.subrange(i as int, n as int));
                    let first = t.subrange(0, 1);
                    assert(first.last() == byte);
                    assert(be_value(first.drop_last()) == 0);
                    assert(be_value(first) == byte as nat);
                    let p = byte_base((n - i) as nat);
                    let c = cur as int;
                    assert(p * c == (c % 256) * p + (256 * p) * (c / 256)) by (nonlinear_arith)
                        requires
                            c == 256 * (c / 256) + c % 256,
                    ;
                }
                cur = cur / 256;
                i = i - 1;
            }
            assert(buf@.subrange(0, n as int) =~= buf@);
            proof {
                lemma_be_bound(buf@);
                lemma_byte_base_mono(0, n as nat);
                assert(byte_base(0) == 1);
                assert(cur * byte_base(n as nat) == byte_base(n as nat) * cur);
                lemma_fundamental_div_mod_converse(
                    u as int,
                    byte_base(n as nat) as int,
                    cur as int,
                    be_value(buf@) as int,
                );
            }
        },
    }
    proof {
        // 256^n divides 2^64, so reducing modulo 2^64 first changes nothing.
        let b = byte_base(n as nat) as int;
        let k = byte_base(8) as int / b;
        assert(k * b == byte_base(8));
        let q = (value as int) / byte_base(8) as int;
        let m = u as int % b;
        assert(value as int == q * byte_base(8) + u as int);
        assert(u as int == (u as int / b) * b + m) by {
            lemma_fundamental_div_mod_converse(u as int, b, u as int / b, m);
        }
        assert(value as int == (q * k + u as int / b) * b + m) by (nonlinear_arith)
            requires
                value as int == q * byte_base(8) + u as int,
                k * b == byte_base(8),
                u as int == (u as int / b) * b + m,
        ;
        lemma_fundamental_div_mod_converse(value as int, b, q * k + u as int / b, m);
    }
    Ok(())
}

/// Decoding what was encoded gives the value back, for every value that
/// fits the register's width and sign.
pub proof fn lemma_int_round_trip(v: i64, s: Seq<u8>, endianness: Endianness, sign: Sign)
    requires
        is_int_width(s.len()),
        unsigned_value(s, endianness) == v as int % (byte_base(s.len()) as int),
        fits(v as int, s.len(), sign),
    ensures
        int_of_bytes(s, endianness, sign) == v,
{
    lemma_byte_base_values();
    let b = byte_base(s.len()) as int;
    if v >= 0 {
        lemma_fundamental_div_mod_converse(v as int, b, 0, v as int);
    } else {
        lemma_fundamental_div_mod_converse(v as int, b, -1, v + b);
    }
}

} // verus!
