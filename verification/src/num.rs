//! Arbitrary-precision naturals and integers held as plain byte vectors.
//!
//! The arithmetic on magnitudes is done by `num-bigint` (through the trusted
//! wrappers below); signs are handled by verified code.

use vstd::prelude::*;
use bigdecimal::num_bigint::BigUint;
use bigdecimal::num_bigint::BigInt;
use bigdecimal::num_traits::Num;
use crate::text::{radix_text, push_char, new_string};

verus! {

/// Value of a big-endian byte string.
pub open spec fn be_value(s: Seq<u8>) -> nat
    decreases s.len(),
{
    if s.len() == 0 {
        0
    } else {
        be_value(s.drop_last()) * 256 + s.last() as nat
    }
}

/// A natural number given by its big-endian bytes.
pub struct Nat {
    pub be: Vec<u8>,
}

impl View for Nat {
    type V = nat;

    open spec fn view(&self) -> nat {
        be_value(self.be@)
    }
}

/// A signed integer: a sign flag and a magnitude.
pub struct Int {
    pub negative: bool,
    pub magnitude: Nat,
}

impl View for Int {
    type V = int;

    open spec fn view(&self) -> int {
        if self.negative {
            -(self.magnitude@ as int)
        } else {
            self.magnitude@ as int
        }
    }
}

pub open spec fn abs(x: int) -> nat {
    if x < 0 {
        (-x) as nat
    } else {
        x as nat
    }
}

/// Division truncated toward zero, as Rust's and `num-bigint`'s `/` do.
pub open spec fn div_trunc(x: int, y: int) -> int {
    let q = (abs(x) / abs(y)) as int;
    if (x < 0) != (y < 0) {
        -q
    } else {
        q
    }
}

/// `BigUint::from(u64)`: the natural with the given value.
#[verifier::external_body]
pub fn nat_from_u64(x: u64) -> (r: Nat)
    ensures
        r@ == x as nat,
{
    Nat { be: BigUint::from(x).to_bytes_be() }
}

/// `BigUint` addition.
#[verifier::external_body]
fn nat_add(a: &Nat, b: &Nat) -> (r: Nat)
    ensures
        r@ == a@ + b@,
{
    Nat { be: (BigUint::from_bytes_be(&a.be) + BigUint::from_bytes_be(&b.be)).to_bytes_be() }
}

/// `BigUint` subtraction, which panics when the result would be negative.
#[verifier::external_body]
fn nat_sub(a: &Nat, b: &Nat) -> (r: Nat)
    requires
        b@ <= a@,
    ensures
        r@ == a@ - b@,
{
    Nat { be: (BigUint::from_bytes_be(&a.be) - BigUint::from_bytes_be(&b.be)).to_bytes_be() }
}

/// `BigUint` multiplication.
#[verifier::external_body]
fn nat_mul(a: &Nat, b: &Nat) -> (r: Nat)
    ensures
        r@ == a@ * b@,
{
    Nat { be: (BigUint::from_bytes_be(&a.be) * BigUint::from_bytes_be(&b.be)).to_bytes_be() }
}

/// `BigUint` quotient and remainder, which panic on a zero divisor.
#[verifier::external_body]
fn nat_div_rem(a: &Nat, b: &Nat) -> (r: (Nat, Nat))
    requires
        b@ > 0,
    ensures
        r.0@ == a@ / b@,
        r.1@ == a@ % b@,
{
    let x = BigUint::from_bytes_be(&a.be);
    let y = BigUint::from_bytes_be(&b.be);
    (Nat { be: (&x / &y).to_bytes_be() }, Nat { be: (&x % &y).to_bytes_be() })
}

/// `BigUint` comparison `<`.
#[verifier::external_body]
fn nat_lt(a: &Nat, b: &Nat) -> (r: bool)
    ensures
        r == (a@ < b@),
{
    BigUint::from_bytes_be(&a.be) < BigUint::from_bytes_be(&b.be)
}

impl Nat {
    pub fn zero() -> (r: Nat)
        ensures
            r@ == 0,
    {
        Nat { be: Vec::new() }
    }

    pub fn add(&self, other: &Nat) -> (r: Nat)
        ensures
            r@ == self@ + other@,
    {
        nat_add(self, other)
    }

    pub fn sub(&self, other: &Nat) -> (r: Nat)
        requires
            other@ <= self@,
        ensures
            r@ == self@ - other@,
    {
        nat_sub(self, other)
    }

    pub fn mul(&self, other: &Nat) -> (r: Nat)
        ensures
            r@ == self@ * other@,
    {
        nat_mul(self, other)
    }

    pub fn div_rem(&self, other: &Nat) -> (r: (Nat, Nat))
        requires
            other@ > 0,
        ensures
            r.0@ == self@ / other@,
            r.1@ == self@ % other@,
    {
        nat_div_rem(self, other)
    }

    pub fn lt(&self, other: &Nat) -> (r: bool)
        ensures
            r == (self@ < other@),
    {
        nat_lt(self, other)
    }

    pub fn le(&self, other: &Nat) -> (r: bool)
        ensures
            r == (self@ <= other@),
    {
        !nat_lt(other, self)
    }

    pub fn eq(&self, other: &Nat) -> (r: bool)
        ensures
            r == (self@ == other@),
    {
        !nat_lt(self, other) && !nat_lt(other, self)
    }

    pub fn is_zero(&self) -> (r: bool)
        ensures
            r == (self@ == 0),
    {
        let z = Nat::zero();
        self.eq(&z)
    }

    pub fn copy(&self) -> (r: Nat)
        ensures
            r@ == self@,
    {
        Nat { be: self.be.clone() }
    }
}

impl Int {
    pub fn from_nat(n: Nat) -> (r: Int)
        ensures
            r@ == n@ as int,
    {
        Int { negative: false, magnitude: n }
    }

    pub fn from_u64(x: u64) -> (r: Int)
        ensures
            r@ == x as int,
    {
        Int { negative: false, magnitude: nat_from_u64(x) }
    }

    pub fn from_i32(x: i32) -> (r: Int)
        ensures
            r@ == x as int,
    {
        if x < 0 {
            let m: u64 = (-(x as i64)) as u64;
            Int { negative: true, magnitude: nat_from_u64(m) }
        } else {
            Int { negative: false, magnitude: nat_from_u64(x as u64) }
        }
    }

    pub fn copy(&self) -> (r: Int)
        ensures
            r@ == self@,
    {
        Int { negative: self.negative, magnitude: self.magnitude.copy() }
    }

    pub fn neg(&self) -> (r: Int)
        ensures
            r@ == -self@,
    {
        Int { negative: !self.negative, magnitude: self.magnitude.copy() }
    }

    pub fn add(&self, other: &Int) -> (r: Int)
        ensures
            r@ == self@ + other@,
    {
        if self.negative == other.negative {
            Int { negative: self.negative, magnitude: self.magnitude.add(&other.magnitude) }
        } else if other.magnitude.le(&self.magnitude) {
            Int { negative: self.negative, magnitude: self.magnitude.sub(&other.magnitude) }
        } else {
            Int { negative: other.negative, magnitude: other.magnitude.sub(&self.magnitude) }
        }
    }

    pub fn sub(&self, other: &Int) -> (r: Int)
        ensures
            r@ == self@ - other@,
    {
        self.add(&other.neg())
    }

    pub fn mul(&self, other: &Int) -> (r: Int)
        ensures
            r@ == self@ * other@,
    {
        let m = self.magnitude.mul(&other.magnitude);
        let r = Int { negative: self.negative != other.negative, magnitude: m };
        proof {
            let a = self.magnitude@ as int;
            let b = other.magnitude@ as int;
            assert((-a) * b == -(a * b)) by (nonlinear_arith);
            assert(a * (-b) == -(a * b)) by (nonlinear_arith);
            assert((-a) * (-b) == a * b) by (nonlinear_arith);
        }
        r
    }

    /// Quotient truncated toward zero.
    pub fn div_trunc(&self, other: &Int) -> (r: Int)
        requires
            other@ != 0,
        ensures
            r@ == div_trunc(self@, other@),
    {
        let (q, _rem) = self.magnitude.div_rem(&other.magnitude);
        let r = Int { negative: self.negative != other.negative, magnitude: q };
        proof {
            assert(abs(self@) == self.magnitude@);
            assert(abs(other@) == other.magnitude@);
            if self.magnitude@ == 0 {
                assert(0nat / other.magnitude@ == 0) by (nonlinear_arith)
                    requires other.magnitude@ > 0;
            }
        }
        r
    }

    pub fn lt(&self, other: &Int) -> (r: bool)
        ensures
            r == (self@ < other@),
    {
        let a_zero = self.magnitude.is_zero();
        let b_zero = other.magnitude.is_zero();
        let a_neg = self.negative && !a_zero;
        let b_neg = other.negative && !b_zero;
        if a_neg && !b_neg {
            true
        } else if !a_neg && b_neg {
            false
        } else if a_neg {
            other.magnitude.lt(&self.magnitude)
        } else {
            self.magnitude.lt(&other.magnitude)
        }
    }

    pub fn le(&self, other: &Int) -> (r: bool)
        ensures
            r == (self@ <= other@),
    {
        !other.lt(self)
    }
}

/// Digit value of an ASCII letter or digit in a base up to 36.
pub open spec fn radix_digit(c: char) -> Option<nat> {
    if '0' <= c && c <= '9' {
        Some((c as nat - 48) as nat)
    } else if 'a' <= c && c <= 'z' {
        Some((c as nat - 87) as nat)
    } else if 'A' <= c && c <= 'Z' {
        Some((c as nat - 55) as nat)
    } else {
        None
    }
}

/// Every character is '_' or a digit below the radix.
pub open spec fn digits_ok(s: Seq<char>, radix: nat) -> bool {
    forall|i: int|
        0 <= i < s.len() ==> (s[i] == '_' || (#[trigger] radix_digit(s[i]) matches Some(d) && d
            < radix))
}

/// Value of the digits, '_' skipped.
pub open spec fn digits_value(s: Seq<char>, radix: nat) -> nat
    decreases s.len(),
{
    if s.len() == 0 {
        0
    } else if s.last() == '_' {
        digits_value(s.drop_last(), radix)
    } else {
        digits_value(s.drop_last(), radix) * radix + match radix_digit(s.last()) {
            Some(d) => d,
            None => 0,
        }
    }
}

/// `BigUint::from_str_radix`: one optional '+' (not followed by another
/// '+'), then a non-empty run of digits and '_' that does not start with '_'.
pub open spec fn parse_natural(s: Seq<char>, radix: nat) -> Option<nat> {
    let u = if s.len() >= 1 && s[0] == '+' && !(s.len() >= 2 && s[1] == '+') {
        s.subrange(1, s.len() as int)
    } else {
        s
    };
    if u.len() == 0 || u[0] == '_' || !digits_ok(u, radix) {
        None
    } else {
        Some(digits_value(u, radix))
    }
}

/// `BigInt::from_str_radix`: an optional '-' (not followed by '+'), then a
/// natural as `parse_natural` reads it.
pub open spec fn parse_integer(s: Seq<char>, radix: nat) -> Option<int> {
    if s.len() >= 1 && s[0] == '-' {
        let tail = s.subrange(1, s.len() as int);
        if tail.len() >= 1 && tail[0] == '+' {
            None
        } else {
            match parse_natural(tail, radix) {
                Some(v) => Some(-(v as int)),
                None => None,
            }
        }
    } else {
        match parse_natural(s, radix) {
            Some(v) => Some(v as int),
            None => None,
        }
    }
}

/// `BigInt::from_str_radix` for radix 10 or 16.
#[verifier::external_body]
pub fn parse_int_radix(s: &str, radix: u32) -> (r: Option<Int>)
    requires
        radix == 10 || radix == 16,
    ensures
        r is Some <==> parse_integer(s@, radix as nat) is Some,
        r matches Some(x) ==> x@ == parse_integer(s@, radix as nat)->0,
{
    match BigInt::from_str_radix(s, radix) {
        Ok(v) => {
            let (sign, mag) = v.to_bytes_be();
            let negative = match sign {
                bigdecimal::num_bigint::Sign::Minus => true,
                bigdecimal::num_bigint::Sign::NoSign => false,
                bigdecimal::num_bigint::Sign::Plus => false,
            };
            Some(Int { negative, magnitude: Nat { be: mag } })
        },
        Err(_) => None,
    }
}

/// `BigUint::to_str_radix` for radix 10 or 16.
#[verifier::external_body]
pub fn nat_to_str_radix(n: &Nat, radix: u32) -> (r: String)
    requires
        radix == 10 || radix == 16,
    ensures
        r@ == radix_text(n@, radix as nat),
{
    BigUint::from_bytes_be(&n.be).to_str_radix(radix)
}

/// Rendering of an integer in base 10 or 16, '-' first for negatives
/// (`BigInt::to_str_radix`).
pub open spec fn int_radix_text(x: int, radix: nat) -> Seq<char> {
    if x < 0 {
        seq!['-'] + radix_text(abs(x), radix)
    } else {
        radix_text(abs(x), radix)
    }
}

impl Int {
    pub fn to_str_radix(&self, radix: u32) -> (r: String)
        requires
            radix == 10 || radix == 16,
        ensures
            r@ == int_radix_text(self@, radix as nat),
    {
        let digits = nat_to_str_radix(&self.magnitude, radix);
        if self.negative && !self.magnitude.is_zero() {
            let mut out = new_string();
            push_char(&mut out, '-');
            out.append(digits.as_str());
            assert(out@ =~= seq!['-'] + radix_text(abs(self@), radix as nat));
            out
        } else {
            digits
        }
    }
}

} // verus!
