use vstd::prelude::*;
use vstd::arithmetic::div_mod::{lemma_add_mod_noop, lemma_mod_twice, lemma_mul_mod_noop};

verus! {

/// 2^128, the weight of an amount's high part.
pub open spec fn high_unit() -> int {
    0x1_0000_0000_0000_0000_0000_0000_0000_0000int
}

/// `v` lies in the range of amounts, that of the ledger's 192-bit decimals
/// counted in attos: from -2^191 to 2^191 - 1.
pub open spec fn in_range(v: int) -> bool {
    i64::MIN * high_unit() <= v < (i64::MAX + 1) * high_unit()
}

/// 10^n.
pub open spec fn pow10(n: nat) -> int
    decreases n,
{
    if n == 0 {
        1
    } else {
        10 * pow10((n - 1) as nat)
    }
}

/// Up to 18, the powers of ten rise and stay within 10^18.
pub proof fn lemma_pow10_bound(n: nat)
    requires
        n <= 18,
    ensures
        1 <= pow10(n) <= pow10(18),
        pow10(18) == 1_000_000_000_000_000_000,
    decreases 18 - n,
{
    reveal_with_fuel(pow10, 19);
    if n < 18 {
        lemma_pow10_bound(n + 1);
    }
}

/// `a` can be taken from a resource with `divisibility` decimal places: it is
/// not negative and a whole number of the resource's smallest unit,
/// 10^(18 - divisibility) attos.
pub open spec fn fits(a: Amount, divisibility: u8) -> bool {
    &&& divisibility <= 18
    &&& a.value() >= 0
    &&& a.value() % pow10((18 - divisibility) as nat) == 0
}

/// The divisibility of a resource divided down to the atto.
pub const FULL_DIVISIBILITY: u8 = 18u8;

/// 10^k, for k up to 18.
fn unit(k: u8) -> (m: u128)
    requires
        k <= 18,
    ensures
        m == pow10(k as nat),
        1 <= m <= 1_000_000_000_000_000_000,
{
    let mut m: u128 = 1;
    let mut i: u8 = 0;
    while i < k
        invariant
            i <= k <= 18,
            m == pow10(i as nat),
        decreases k - i,
    {
        proof {
            lemma_pow10_bound((i + 1) as nat);
        }
        m = m * 10;
        i = i + 1;
    }
    proof {
        lemma_pow10_bound(k as nat);
    }
    m
}

/// A signed amount in attos (10^-18 of a unit) over the range of the ledger's
/// 192-bit decimals: `hi * 2^128 + lo`.
#[derive(Clone, Copy, PartialEq, Eq, Structural, Debug)]
pub struct Amount {
    pub hi: i64,
    pub lo: u128,
}

/// The amount whose value is `v` (meant for `v` in range).
pub open spec fn amount_of(v: int) -> Amount {
    Amount { hi: (v / high_unit()) as i64, lo: (v % high_unit()) as u128 }
}

/// Every amount lies in range.
pub proof fn lemma_value_in_range(a: Amount)
    ensures
        in_range(a.value()),
{
}

/// In range, `amount_of` gives an amount of that value, and it is the only
/// amount of that value.
pub proof fn lemma_amount_of(v: int)
    requires
        in_range(v),
    ensures
        amount_of(v).value() == v,
        forall|a: Amount| a.value() == v ==> a == amount_of(v),
{
    let b = high_unit();
    vstd::arithmetic::div_mod::lemma_fundamental_div_mod(v, b);
    let q = v / b;
    let r = v % b;
    assert(0 <= r < b);
    assert(v == b * q + r);
    assert(i64::MIN <= q <= i64::MAX);
    assert forall|a: Amount| a.value() == v implies a == amount_of(v) by {
        assert(a.hi * b + a.lo == q * b + r);
        assert(a.hi == q);
        assert(a.lo == r);
    }
}

/// The residue of `hi * 2^128 + lo` modulo `m` from those of its parts.
proof fn lemma_residue(hi: int, lo: int, m: int, b: int)
    requires
        0 < m,
        0 <= hi,
        0 <= lo,
        b == ((u128::MAX as int) % m + 1) % m,
    ensures
        ((hi % m) * b + lo % m) % m == (hi * high_unit() + lo) % m,
{
    let h = high_unit();
    assert(h == u128::MAX + 1);
    lemma_add_mod_noop(u128::MAX as int, 1, m);
    if m == 1 {
        assert(b == 0);
        assert(h % m == 0);
    } else {
        assert(1int % m == 1) by {
            vstd::arithmetic::div_mod::lemma_small_mod(1, m as nat);
        }
    }
    assert(b == h % m);
    lemma_mul_mod_noop(hi, h, m);
    lemma_add_mod_noop(hi * h, lo, m);
    lemma_add_mod_noop((hi % m) * b, lo % m, m);
    lemma_mod_twice(lo, m);
}

impl Amount {
    /// The value of the amount, in attos.
    pub open spec fn value(self) -> int {
        self.hi * high_unit() + self.lo
    }

    /// Nothing.
    pub fn zero() -> (r: Amount)
        ensures
            r.value() == 0,
            r == amount_of(0),
    {
        proof {
            lemma_amount_of(0);
        }
        Amount { hi: 0, lo: 0 }
    }

    /// The amount of `x` attos.
    pub fn from_attos(x: i128) -> (r: Amount)
        ensures
            r.value() == x,
            r == amount_of(x as int),
    {
        proof {
            lemma_amount_of(x as int);
        }
        if x >= 0 {
            Amount { hi: 0, lo: x as u128 }
        } else {
            let neg = (-(x + 1)) as u128;
            Amount { hi: -1, lo: u128::MAX - neg }
        }
    }

    /// Whether `self` is less than `other`.
    pub fn less_than(&self, other: &Amount) -> (r: bool)
        ensures
            r == (self.value() < other.value()),
    {
        self.hi < other.hi || (self.hi == other.hi && self.lo < other.lo)
    }

    /// Whether `self` can be taken from a resource with `divisibility` decimal
    /// places (see `fits`).
    pub fn fits(&self, divisibility: u8) -> (r: bool)
        ensures
            r == fits(*self, divisibility),
    {
        if divisibility > 18 || self.hi < 0 {
            return false;
        }
        let m = unit(18 - divisibility);
        let hi = self.hi as u128;
        let b = (u128::MAX % m + 1) % m;
        let hm = hi % m;
        let lm = self.lo % m;
        proof {
            lemma_residue(hi as int, self.lo as int, m as int, b as int);
            assert(hm < m && b < m && lm < m);
            assert(hm * b <= 1_000_000_000_000_000_000_000_000_000_000_000_000) by (nonlinear_arith)
                requires
                    hm < m,
                    b < m,
                    m <= 1_000_000_000_000_000_000,
            ;
        }
        (hm * b + lm) % m == 0
    }

    /// Whether `self` is below zero.
    pub fn is_negative(&self) -> (r: bool)
        ensures
            r == (self.value() < 0),
    {
        self.hi < 0
    }

    /// `self + other`, if it lies in range.
    pub fn checked_add(&self, other: &Amount) -> (r: Option<Amount>)
        ensures
            r is None <==> !in_range(self.value() + other.value()),
            r matches Some(s) ==> s == amount_of(self.value() + other.value()) && s.value()
                == self.value() + other.value(),
    {
        proof {
            if in_range(self.value() + other.value()) {
                lemma_amount_of(self.value() + other.value());
            }
        }
        let (lo, carry) = if self.lo <= u128::MAX - other.lo {
            (self.lo + other.lo, 0i128)
        } else {
            (self.lo - (u128::MAX - other.lo) - 1, 1i128)
        };
        let hi = self.hi as i128 + other.hi as i128 + carry;
        if hi < i64::MIN as i128 || hi > i64::MAX as i128 {
            None
        } else {
            Some(Amount { hi: hi as i64, lo })
        }
    }

    /// `self - other`, if it lies in range.
    pub fn checked_sub(&self, other: &Amount) -> (r: Option<Amount>)
        ensures
            r is None <==> !in_range(self.value() - other.value()),
            r matches Some(s) ==> s == amount_of(self.value() - other.value()) && s.value()
                == self.value() - other.value(),
    {
        proof {
            if in_range(self.value() - other.value()) {
                lemma_amount_of(self.value() - other.value());
            }
        }
        let (lo, borrow) = if self.lo >= other.lo {
            (self.lo - other.lo, 0i128)
        } else {
            (u128::MAX - (other.lo - self.lo) + 1, 1i128)
        };
        let hi = self.hi as i128 - other.hi as i128 - borrow;
        if hi < i64::MIN as i128 || hi > i64::MAX as i128 {
            None
        } else {
            Some(Amount { hi: hi as i64, lo })
        }
    }
}

} // verus!
