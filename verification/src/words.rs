//! Fixed-width words: 256-bit values and 160-bit addresses, held as
//! big-endian byte arrays exactly as the persisted schema stores them.

use vstd::prelude::*;
use vstd::arithmetic::div_mod::{lemma_div_denominator, lemma_mod_breakdown};

verus! {

broadcast use vstd::array::group_array_axioms;

/// 256 raised to the power `k`: the weight of a big-endian digit.
pub open spec fn pow256(k: nat) -> nat
    decreases k,
{
    if k == 0 {
        1
    } else {
        256 * pow256((k - 1) as nat)
    }
}

/// The unsigned integer a big-endian byte string denotes.
pub open spec fn be_val(s: Seq<u8>) -> nat
    decreases s.len(),
{
    if s.len() == 0 {
        0
    } else {
        (be_val(s.drop_last()) * 256 + s.last()) as nat
    }
}

pub proof fn lemma_pow256_pos(k: nat)
    ensures
        pow256(k) >= 1,
    decreases k,
{
    if k > 0 {
        lemma_pow256_pos((k - 1) as nat);
    }
}

pub proof fn lemma_pow256_mono(a: nat, b: nat)
    requires
        a <= b,
    ensures
        pow256(a) <= pow256(b),
    decreases b,
{
    if a < b {
        lemma_pow256_mono(a, (b - 1) as nat);
        lemma_pow256_pos((b - 1) as nat);
    }
}

pub proof fn lemma_pow256_8()
    ensures
        pow256(8) == 0x1_0000_0000_0000_0000,
{
    assert(pow256(0) == 1);
    assert(pow256(1) == 256);
    assert(pow256(2) == 0x1_0000);
    assert(pow256(3) == 0x100_0000);
    assert(pow256(4) == 0x1_0000_0000);
    assert(pow256(5) == 0x100_0000_0000);
    assert(pow256(6) == 0x1_0000_0000_0000);
    assert(pow256(7) == 0x100_0000_0000_0000);
}

/// A byte string of length `n` denotes a value below `256^n`.
pub proof fn lemma_be_val_bound(s: Seq<u8>)
    ensures
        be_val(s) < pow256(s.len()),
    decreases s.len(),
{
    if s.len() == 0 {
    } else {
        lemma_be_val_bound(s.drop_last());
    }
}

/// Unfolding `be_val` from the front rather than the back.
pub proof fn lemma_be_val_first(s: Seq<u8>)
    requires
        s.len() > 0,
    ensures
        be_val(s) == s[0] * pow256((s.len() - 1) as nat) + be_val(s.drop_first()),
    decreases s.len(),
{
    if s.len() == 1 {
        assert(s.drop_last() =~= Seq::<u8>::empty());
        assert(s.drop_first() =~= Seq::<u8>::empty());
        assert(be_val(Seq::<u8>::empty()) == 0);
        assert(be_val(s) == s.last());
        assert(pow256((s.len() - 1) as nat) == 1);
        assert(s[0] * 1 == s[0]);
        assert(be_val(s) == s[0] * pow256((s.len() - 1) as nat) + be_val(s.drop_first()));
    } else {
        let dl = s.drop_last();
        let df = s.drop_first();
        lemma_be_val_first(dl);
        assert(dl.drop_first() =~= df.drop_last());
        let p = pow256((s.len() - 2) as nat);
        assert(pow256((s.len() - 1) as nat) == 256 * p);
        assert(be_val(s) == be_val(dl) * 256 + s.last());
        assert(be_val(dl) == s[0] * p + be_val(df.drop_last()));
        assert((s[0] * p + be_val(df.drop_last())) * 256 == s[0] * (256 * p) + be_val(
            df.drop_last(),
        ) * 256) by (nonlinear_arith);
        assert(df.last() == s.last());
        assert(df.len() > 0);
        assert(be_val(df) == be_val(df.drop_last()) * 256 + df.last());
    }
}

/// Bytes that lead with zeros denote what their tail denotes.
pub proof fn lemma_be_val_leading_zeros(s: Seq<u8>, k: nat)
    requires
        k <= s.len(),
        forall|i: int| 0 <= i < k ==> s[i] == 0,
    ensures
        be_val(s) == be_val(s.skip(k as int)),
    decreases k,
{
    if k == 0 {
        assert(s.skip(0) =~= s);
    } else {
        lemma_be_val_first(s);
        assert(s.drop_first() =~= s.skip(1));
        lemma_be_val_leading_zeros(s.skip(1), (k - 1) as nat);
        assert(s.skip(1).skip(k as int - 1) =~= s.skip(k as int));
    }
}

/// Each digit bounds the value from below by its weight.
pub proof fn lemma_be_val_lower(s: Seq<u8>, i: int)
    requires
        0 <= i < s.len(),
    ensures
        be_val(s) >= s[i] * pow256((s.len() - 1 - i) as nat),
    decreases i,
{
    lemma_be_val_first(s);
    assert(s[0] * pow256((s.len() - 1) as nat) >= 0) by (nonlinear_arith);
    if i == 0 {
    } else {
        lemma_be_val_lower(s.drop_first(), i - 1);
    }
}

/// An all-zero byte string denotes zero.
pub proof fn lemma_be_val_all_zero(s: Seq<u8>)
    requires
        forall|i: int| 0 <= i < s.len() ==> s[i] == 0,
    ensures
        be_val(s) == 0,
    decreases s.len(),
{
    if s.len() > 0 {
        lemma_be_val_all_zero(s.drop_last());
    }
}

/// Big-endian strings of equal length order as their bytes do: the first
/// differing byte decides.
pub proof fn lemma_be_val_lt(a: Seq<u8>, b: Seq<u8>, i: int)
    requires
        a.len() == b.len(),
        0 <= i < a.len(),
        forall|j: int| 0 <= j < i ==> a[j] == b[j],
        a[i] < b[i],
    ensures
        be_val(a) < be_val(b),
    decreases i,
{
    lemma_be_val_first(a);
    lemma_be_val_first(b);
    let p = pow256((a.len() - 1) as nat);
    if i == 0 {
        lemma_be_val_bound(a.drop_first());
        lemma_pow256_pos((a.len() - 1) as nat);
        assert((a[0] + 1) * p <= b[0] * p && a[0] * p >= 0 && b[0] * p >= 0 && (a[0] + 1) * p
            == a[0] * p + p) by (nonlinear_arith)
            requires
                a[0] < b[0],
                p >= 1,
        ;
    } else {
        lemma_be_val_lt(a.drop_first(), b.drop_first(), i - 1);
    }
}

/// A 256-bit word, stored as 32 big-endian bytes.
#[derive(Clone, Copy, PartialEq, Eq, Debug)]
pub struct W256 {
    pub b: [u8; 32],
}

/// A 160-bit account address, stored as 20 bytes.
#[derive(Clone, Copy, PartialEq, Eq, Debug)]
pub struct Address {
    pub b: [u8; 20],
}

impl View for W256 {
    type V = nat;

    open spec fn view(&self) -> nat {
        be_val(self.b@)
    }
}

impl View for Address {
    type V = Seq<u8>;

    open spec fn view(&self) -> Seq<u8> {
        self.b@
    }
}

impl W256 {
    /// The zero value every unwritten key resolves to.
    pub fn zero() -> (r: W256)
        ensures
            r@ == 0,
    {
        let r = W256 { b: [0u8; 32] };
        proof {
            lemma_be_val_all_zero(r.b@);
        }
        r
    }

    /// Whether this word denotes zero.
    pub fn is_zero(&self) -> (r: bool)
        ensures
            r <==> self@ == 0,
    {
        let mut i: usize = 0;
        while i < 32
            invariant
                i <= 32,
                forall|j: int| 0 <= j < i ==> self.b@[j] == 0,
            decreases 32 - i,
        {
            if self.b[i] != 0 {
                proof {
                    lemma_be_val_lower(self.b@, i as int);
                    lemma_pow256_pos((31 - i) as nat);
                    assert(self.b@[i as int] * pow256((31 - i) as nat) >= 1 * pow256(
                        (31 - i) as nat,
                    )) by (nonlinear_arith)
                        requires
                            self.b@[i as int] >= 1,
                            pow256((31 - i) as nat) >= 1,
                    ;
                }
                return false;
            }
            i = i + 1;
        }
        proof {
            lemma_be_val_all_zero(self.b@);
        }
        true
    }

    /// Strictly-less-than on the denoted values.
    pub fn lt(&self, other: &W256) -> (r: bool)
        ensures
            r <==> self@ < other@,
    {
        let mut i: usize = 0;
        while i < 32
            invariant
                i <= 32,
                forall|j: int| 0 <= j < i ==> self.b@[j] == other.b@[j],
            decreases 32 - i,
        {
            if self.b[i] < other.b[i] {
                proof {
                    lemma_be_val_lt(self.b@, other.b@, i as int);
                }
                return true;
            }
            if self.b[i] > other.b[i] {
                proof {
                    lemma_be_val_lt(other.b@, self.b@, i as int);
                }
                return false;
            }
            i = i + 1;
        }
        proof {
            assert(self.b@ =~= other.b@);
        }
        false
    }

    /// Subtraction of denoted values; the caller keeps it from underflowing.
    pub fn sub(&self, other: &W256) -> (r: W256)
        requires
            self@ >= other@,
        ensures
            r@ == self@ - other@,
    {
        let mut r = W256 { b: [0u8; 32] };
        let mut borrow: u16 = 0;
        let mut j: usize = 0;
        while j < 32
            invariant
                j <= 32,
                borrow <= 1,
                be_val(r.b@.skip(32 - j as int)) + be_val(other.b@.skip(32 - j as int)) == be_val(
                    self.b@.skip(32 - j as int),
                ) + (borrow as nat) * pow256(j as nat),
            decreases 32 - j,
        {
            let i = 31 - j;
            let xi = self.b[i] as u16;
            let yi = other.b[i] as u16 + borrow;
            let ri: u16 = if xi >= yi {
                xi - yi
            } else {
                xi + 256 - yi
            };
            let bo: u16 = if xi >= yi {
                0
            } else {
                1
            };
            let ghost r_old = r.b@;
            let ghost bin = borrow as nat;
            r.b[i] = ri as u8;
            borrow = bo;
            proof {
                let k = i as int;
                let p = pow256(j as nat);
                assert(r.b@.skip(k + 1) =~= r_old.skip(k + 1));
                lemma_be_val_first(r.b@.skip(k));
                lemma_be_val_first(self.b@.skip(k));
                lemma_be_val_first(other.b@.skip(k));
                assert(r.b@.skip(k).drop_first() =~= r.b@.skip(k + 1));
                assert(self.b@.skip(k).drop_first() =~= self.b@.skip(k + 1));
                assert(other.b@.skip(k).drop_first() =~= other.b@.skip(k + 1));
                let rr = be_val(r.b@.skip(k + 1));
                let yy = be_val(other.b@.skip(k + 1));
                let xx = be_val(self.b@.skip(k + 1));
                assert(rr + yy == xx + bin * p);
                assert(xi as nat + 256 * (bo as nat) == ri as nat + other.b@[k] + bin);
                assert((ri as nat) * p + rr + other.b@[k] * p + yy == self.b@[k] * p + xx + (
                bo as nat) * (256 * p)) by (nonlinear_arith)
                    requires
                        rr + yy == xx + bin * p,
                        xi as nat + 256 * (bo as nat) == ri as nat + other.b@[k] + bin,
                        xi as nat == self.b@[k],
                ;
                assert(pow256((j + 1) as nat) == 256 * p);
            }
            j = j + 1;
        }
        proof {
            assert(r.b@.skip(0) =~= r.b@);
            assert(self.b@.skip(0) =~= self.b@);
            assert(other.b@.skip(0) =~= other.b@);
            if borrow == 1 {
                lemma_be_val_bound(r.b@);
                assert(false);
            }
        }
        r
    }

    /// The word denoting a 64-bit value.
    pub fn from_u64(x: u64) -> (r: W256)
        ensures
            r@ == x,
    {
        let mut r = W256 { b: [0u8; 32] };
        let mut v: u64 = x;
        let mut j: usize = 0;
        proof {
            assert(r.b@.skip(32) =~= Seq::<u8>::empty());
            assert(pow256(0) == 1);
            vstd::arithmetic::div_mod::lemma_div_basics(x as int);
            assert(x as nat % 1 == 0) by (nonlinear_arith);
        }
        while j < 8
            invariant
                j <= 8,
                v as nat == x as nat / pow256(j as nat),
                be_val(r.b@.skip(32 - j as int)) == x as nat % pow256(j as nat),
                forall|t: int| 0 <= t < 32 - j ==> r.b@[t] == 0,
            decreases 8 - j,
        {
            let i = 31 - j;
            let d: u8 = (v % 256) as u8;
            let ghost r_old = r.b@;
            let ghost p = pow256(j as nat);
            r.b[i] = d;
            v = v / 256;
            proof {
                let k = i as int;
                lemma_pow256_pos(j as nat);
                assert(r.b@.skip(k + 1) =~= r_old.skip(k + 1));
                lemma_be_val_first(r.b@.skip(k));
                assert(r.b@.skip(k).drop_first() =~= r.b@.skip(k + 1));
                lemma_mod_breakdown(x as int, p as int, 256);
                lemma_div_denominator(x as int, p as int, 256);
                assert(pow256((j + 1) as nat) == 256 * p);
                assert(p * 256 == 256 * p);
                assert(d as nat == (x as nat / p) % 256);
                assert((d as nat) * p == p * (d as nat)) by (nonlinear_arith);
            }
            j = j + 1;
        }
        proof {
            lemma_pow256_8();
            assert(x as nat % pow256(8) == x as nat) by {
                vstd::arithmetic::div_mod::lemma_small_mod(x as nat, pow256(8));
            }
            lemma_be_val_leading_zeros(r.b@, 24);
            assert(r.b@.skip(24) =~= r.b@.skip(32 - 8));
        }
        r
    }

    /// The low 64 bits of a word known to fit them.
    pub fn as_u64(&self) -> (r: u64)
        requires
            self@ <= u64::MAX,
        ensures
            r as nat == self@,
    {
        proof {
            lemma_pow256_8();
            assert forall|t: int| 0 <= t < 24 implies self.b@[t] == 0 by {
                if self.b@[t] != 0 {
                    lemma_be_val_lower(self.b@, t);
                    lemma_pow256_mono(8, (31 - t) as nat);
                    assert(self.b@[t] * pow256((31 - t) as nat) >= 1 * pow256((31 - t) as nat))
                        by (nonlinear_arith)
                        requires
                            self.b@[t] >= 1,
                            pow256((31 - t) as nat) >= 1,
                    ;
                    lemma_pow256_pos((31 - t) as nat);
                }
            }
            lemma_be_val_leading_zeros(self.b@, 24);
        }
        let mut v: u64 = 0;
        let mut i: usize = 24;
        proof {
            assert(self.b@.subrange(24, 24) =~= Seq::<u8>::empty());
        }
        while i < 32
            invariant
                24 <= i <= 32,
                v as nat == be_val(self.b@.subrange(24, i as int)),
                self@ <= u64::MAX,
                forall|t: int| 0 <= t < 24 ==> self.b@[t] == 0,
            decreases 32 - i,
        {
            proof {
                lemma_pow256_8();
                lemma_be_val_bound(self.b@.subrange(24, i as int));
                lemma_pow256_mono((i - 24) as nat, 7);
                assert(self.b@.subrange(24, i as int + 1).drop_last() =~= self.b@.subrange(
                    24,
                    i as int,
                ));
            }
            v = v * 256 + (self.b[i] as u64);
            i = i + 1;
        }
        proof {
            assert(self.b@.subrange(24, 32) =~= self.b@.skip(24));
        }
        v
    }

    /// The 32 stored bytes, as the schema's column value.
    pub fn to_bytes(&self) -> (r: Vec<u8>)
        ensures
            r@ == self.b@,
    {
        let mut r: Vec<u8> = Vec::new();
        let mut i: usize = 0;
        while i < 32
            invariant
                i <= 32,
                r@ =~= self.b@.take(i as int),
            decreases 32 - i,
        {
            r.push(self.b[i]);
            i = i + 1;
        }
        proof {
            assert(self.b@.take(32) =~= self.b@);
        }
        r
    }

    /// Decodes a stored column value; anything but exactly 32 bytes is refused.
    pub fn from_bytes(v: &[u8]) -> (r: Option<W256>)
        ensures
            v@.len() == 32 ==> r is Some && r->0.b@ == v@,
            v@.len() != 32 ==> r is None,
    {
        if v.len() != 32 {
            return None;
        }
        let mut r = W256 { b: [0u8; 32] };
        let mut i: usize = 0;
        while i < 32
            invariant
                i <= 32,
                v@.len() == 32,
                forall|j: int| 0 <= j < i ==> r.b@[j] == v@[j],
            decreases 32 - i,
        {
            r.b[i] = v[i];
            i = i + 1;
        }
        proof {
            assert(r.b@ =~= v@);
        }
        Some(r)
    }
}

impl Address {
    /// The all-zero address.
    pub fn zero() -> (r: Address)
        ensures
            r@ =~= Seq::<u8>::new(20, |i: int| 0u8),
    {
        Address { b: [0u8; 20] }
    }

    /// Byte-for-byte equality of addresses.
    pub fn eq(&self, other: &Address) -> (r: bool)
        ensures
            r <==> self@ == other@,
    {
        let mut i: usize = 0;
        while i < 20
            invariant
                i <= 20,
                forall|j: int| 0 <= j < i ==> self.b@[j] == other.b@[j],
            decreases 20 - i,
        {
            if self.b[i] != other.b[i] {
                return false;
            }
            i = i + 1;
        }
        proof {
            assert(self.b@ =~= other.b@);
        }
        true
    }

    /// The 20 stored bytes, as the schema's address column value.
    pub fn to_bytes(&self) -> (r: Vec<u8>)
        ensures
            r@ == self.b@,
    {
        let mut r: Vec<u8> = Vec::new();
        let mut i: usize = 0;
        while i < 20
            invariant
                i <= 20,
                r@ =~= self.b@.take(i as int),
            decreases 20 - i,
        {
            r.push(self.b[i]);
            i = i + 1;
        }
        proof {
            assert(self.b@.take(20) =~= self.b@);
        }
        r
    }

    /// Decodes an address; anything but exactly 20 bytes is refused.
    pub fn from_bytes(v: &[u8]) -> (r: Option<Address>)
        ensures
            v@.len() == 20 ==> r is Some && r->0.b@ == v@,
            v@.len() != 20 ==> r is None,
    {
        if v.len() != 20 {
            return None;
        }
        let mut r = Address { b: [0u8; 20] };
        let mut i: usize = 0;
        while i < 20
            invariant
                i <= 20,
                v@.len() == 20,
                forall|j: int| 0 <= j < i ==> r.b@[j] == v@[j],
            decreases 20 - i,
        {
            r.b[i] = v[i];
            i = i + 1;
        }
        proof {
            assert(r.b@ =~= v@);
        }
        Some(r)
    }
}

} // verus!
