//! Big-endian integers on the wire, and the 256-bit unsigned integer that the
//! swap payloads carry.
use vstd::prelude::*;

verus! {

/// 256 to the power `n`.
pub open spec fn radix_pow(n: nat) -> nat
    decreases n,
{
    if n == 0 {
        1
    } else {
        256 * radix_pow((n - 1) as nat)
    }
}

/// The number that a big-endian byte string denotes.
pub open spec fn be_value(s: Seq<u8>) -> nat
    decreases s.len(),
{
    if s.len() == 0 {
        0
    } else {
        be_value(s.drop_last()) * 256 + s.last() as nat
    }
}

/// The `n` bytes that write `x` big-endian, most significant first.
pub open spec fn be_bytes(x: nat, n: nat) -> Seq<u8>
    decreases n,
{
    if n == 0 {
        Seq::empty()
    } else {
        be_bytes(x / 256, (n - 1) as nat).push((x % 256) as u8)
    }
}

/// 2^128, one more than the largest `u128`.
pub open spec fn two_pow_128() -> nat {
    u128::MAX as nat + 1
}

pub proof fn lemma_radix_pow_positive(n: nat)
    ensures
        radix_pow(n) >= 1,
    decreases n,
{
    if n > 0 {
        lemma_radix_pow_positive((n - 1) as nat);
    }
}

pub proof fn lemma_radix_pow_monotonic(m: nat, n: nat)
    requires
        m <= n,
    ensures
        radix_pow(m) <= radix_pow(n),
    decreases n,
{
    if m < n {
        lemma_radix_pow_monotonic(m, (n - 1) as nat);
    }
}

pub proof fn lemma_radix_pow_16()
    ensures
        radix_pow(16) == two_pow_128(),
        radix_pow(4) == 0x1_0000_0000,
        radix_pow(2) == 0x1_0000,
        radix_pow(1) == 256,
{
    reveal_with_fuel(radix_pow, 17);
}

pub proof fn lemma_be_bytes_len(x: nat, n: nat)
    ensures
        be_bytes(x, n).len() == n,
    decreases n,
{
    if n > 0 {
        lemma_be_bytes_len(x / 256, (n - 1) as nat);
    }
}

/// A string of `n` bytes denotes a number below 256^n.
pub proof fn lemma_be_value_bound(s: Seq<u8>)
    ensures
        be_value(s) < radix_pow(s.len()),
    decreases s.len(),
{
    if s.len() > 0 {
        let t = s.drop_last();
        lemma_be_value_bound(t);
        let v = be_value(t);
        let p = radix_pow(t.len());
        let b = s.last() as nat;
        assert(v * 256 + b < 256 * p) by (nonlinear_arith)
            requires
                v < p,
                b < 256,
        ;
    }
}

/// Splitting a big-endian string splits its value.
pub proof fn lemma_be_value_concat(a: Seq<u8>, b: Seq<u8>)
    ensures
        be_value(a + b) == be_value(a) * radix_pow(b.len()) + be_value(b),
    decreases b.len(),
{
    if b.len() == 0 {
        assert(a + b =~= a);
        assert(be_value(b) == 0);
        assert(radix_pow(0) == 1);
        assert(be_value(a) * 1 == be_value(a));
    } else {
        let b1 = b.drop_last();
        assert((a + b).drop_last() =~= a + b1);
        assert((a + b).last() == b.last());
        lemma_be_value_concat(a, b1);
        let va = be_value(a);
        let p = radix_pow(b1.len());
        let vb = be_value(b1);
        let l = b.last() as nat;
        assert(radix_pow(b.len()) == 256 * p);
        assert(be_value(b) == vb * 256 + l);
        assert(be_value(a + b) == be_value(a + b1) * 256 + l);
        assert((va * p + vb) * 256 + l == va * (256 * p) + (vb * 256 + l)) by (nonlinear_arith);
    }
}

/// Reading back the bytes that write `x` gives `x`.
pub proof fn lemma_be_round_trip(x: nat, n: nat)
    requires
        x < radix_pow(n),
    ensures
        be_value(be_bytes(x, n)) == x,
    decreases n,
{
    if n > 0 {
        let m = (n - 1) as nat;
        let q = x / 256;
        assert(q < radix_pow(m)) by (nonlinear_arith)
            requires
                x < 256 * radix_pow(m),
                q == x / 256,
        ;
        lemma_be_round_trip(q, m);
        let s = be_bytes(x, n);
        assert(s.drop_last() =~= be_bytes(q, m));
        assert(q * 256 + x % 256 == x);
    }
}

/// Reads `n` bytes of `buf` from `start` as a big-endian number.
pub fn read_be(buf: &Vec<u8>, start: usize, n: usize) -> (r: u128)
    requires
        n <= 16,
        start + n <= buf@.len(),
    ensures
        r == be_value(buf@.subrange(start as int, start + n)),
{
    let len = buf.len();
    let mut acc: u128 = 0;
    let mut k: usize = 0;
    proof {
        assert(buf@.subrange(start as int, start as int) =~= Seq::<u8>::empty());
        lemma_radix_pow_16();
    }
    while k < n
        invariant
            k <= n,
            n <= 16,
            start + n <= buf@.len(),
            len == buf@.len(),
            acc == be_value(buf@.subrange(start as int, start + k)),
            acc < radix_pow(k as nat),
            radix_pow(16) == two_pow_128(),
        decreases n - k,
    {
        let b = buf[start + k];
        proof {
            let s = buf@.subrange(start as int, start + k + 1);
            assert(s.drop_last() =~= buf@.subrange(start as int, start + k));
            assert(s.last() == b);
            lemma_radix_pow_monotonic((k + 1) as nat, 16);
            let p = radix_pow(k as nat);
            assert(acc * 256 + b < 256 * p) by (nonlinear_arith)
                requires
                    acc < p,
                    b < 256,
            ;
        }
        acc = acc * 256 + b as u128;
        k = k + 1;
    }
    acc
}

/// Appends `x` to `out` as `n` big-endian bytes.
pub fn write_be(out: &mut Vec<u8>, x: u128, n: usize)
    requires
        n <= 16,
        x < radix_pow(n as nat),
    ensures
        final(out)@ == old(out)@ + be_bytes(x as nat, n as nat),
    decreases n,
{
    if n == 0 {
        assert(out@ + be_bytes(x as nat, 0) =~= out@);
    } else {
        let ghost start = out@;
        proof {
            assert(x / 256 < radix_pow((n - 1) as nat)) by (nonlinear_arith)
                requires
                    x < 256 * radix_pow((n - 1) as nat),
            ;
        }
        write_be(out, x / 256, n - 1);
        out.push((x % 256) as u8);
        assert(out@ =~= start + be_bytes(x as nat, n as nat));
    }
}

/// An unsigned 256-bit integer, held as its high and low 128-bit halves.
#[derive(Clone, Copy, Debug, PartialEq, Eq, Structural)]
pub struct U256 {
    pub hi: u128,
    pub lo: u128,
}

impl U256 {
    /// The number this value stands for.
    pub open spec fn value(self) -> nat {
        self.hi as nat * two_pow_128() + self.lo as nat
    }

    pub fn new(hi: u128, lo: u128) -> (r: U256)
        ensures
            r.hi == hi,
            r.lo == lo,
            r.value() == hi as nat * two_pow_128() + lo as nat,
    {
        U256 { hi, lo }
    }

    pub fn from_u128(x: u128) -> (r: U256)
        ensures
            r.value() == x,
            r.hi == 0,
    {
        U256 { hi: 0, lo: x }
    }

    /// The value as a `u128`, where it fits.
    pub fn to_u128(self) -> (r: Option<u128>)
        ensures
            match r {
                Some(x) => self.value() <= u128::MAX && x == self.value(),
                None => self.value() > u128::MAX,
            },
    {
        if self.hi == 0 {
            assert(self.value() == self.lo);
            Some(self.lo)
        } else {
            proof {
                assert(self.hi as nat * two_pow_128() >= two_pow_128()) by (nonlinear_arith)
                    requires
                        self.hi >= 1,
                ;
            }
            None
        }
    }
}

/// The 32 big-endian bytes that write a 256-bit value.
pub open spec fn u256_bytes(x: U256) -> Seq<u8> {
    be_bytes(x.hi as nat, 16) + be_bytes(x.lo as nat, 16)
}

/// 32 big-endian bytes read as two 128-bit halves.
pub open spec fn u256_of(s: Seq<u8>) -> U256 {
    U256 { hi: be_value(s.subrange(0, 16)) as u128, lo: be_value(s.subrange(16, 32)) as u128 }
}

/// Reading back the bytes of a value gives the value; and the value of a
/// 32-byte string is the number the string denotes.
pub proof fn lemma_u256_round_trip(x: U256)
    ensures
        u256_bytes(x).len() == 32,
        u256_of(u256_bytes(x)) == x,
{
    lemma_radix_pow_16();
    lemma_be_bytes_len(x.hi as nat, 16);
    lemma_be_bytes_len(x.lo as nat, 16);
    lemma_be_round_trip(x.hi as nat, 16);
    lemma_be_round_trip(x.lo as nat, 16);
    let s = u256_bytes(x);
    assert(s.subrange(0, 16) =~= be_bytes(x.hi as nat, 16));
    assert(s.subrange(16, 32) =~= be_bytes(x.lo as nat, 16));
}

pub proof fn lemma_u256_of_value(s: Seq<u8>)
    requires
        s.len() == 32,
    ensures
        u256_of(s).value() == be_value(s),
{
    lemma_radix_pow_16();
    let a = s.subrange(0, 16);
    let b = s.subrange(16, 32);
    assert(s =~= a + b);
    lemma_be_value_concat(a, b);
    lemma_be_value_bound(a);
    lemma_be_value_bound(b);
}

/// Reads 32 bytes of `buf` from `start` as a 256-bit value.
pub fn read_u256(buf: &Vec<u8>, start: usize) -> (r: U256)
    requires
        start + 32 <= buf@.len(),
    ensures
        r == u256_of(buf@.subrange(start as int, start + 32)),
{
    let len = buf.len();
    let hi = read_be(buf, start, 16);
    let lo = read_be(buf, start + 16, 16);
    proof {
        let s = buf@.subrange(start as int, start + 32);
        assert(s.subrange(0, 16) =~= buf@.subrange(start as int, start + 16));
        assert(s.subrange(16, 32) =~= buf@.subrange(start + 16, start + 32));
    }
    U256 { hi, lo }
}

/// Appends the 32 bytes of `x` to `out`.
pub fn write_u256(out: &mut Vec<u8>, x: U256)
    ensures
        final(out)@ == old(out)@ + u256_bytes(x),
{
    proof {
        lemma_radix_pow_16();
    }
    let ghost start = out@;
    write_be(out, x.hi, 16);
    write_be(out, x.lo, 16);
    proof {
        assert(out@ =~= start + u256_bytes(x));
    }
}

} // verus!
