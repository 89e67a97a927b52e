//! Starknet field elements held as their 32 big-endian bytes, with the
//! conversions and renderings the services use.

use vstd::prelude::*;
use crate::num::{be_value, Int, Nat, abs};
use crate::text::{hex_digit_value, hex_text, trim_0x, decimal_text, push_char, push_hex_bytes,
    new_string};
use bigdecimal::num_bigint::BigUint;

verus! {

/// The Stark prime 2^251 + 17 * 2^192 + 1.
pub open spec fn felt_prime() -> nat {
    3618502788666131213697322783095070105623107215331596699973092056135872020481nat
}

pub open spec fn two_pow_128() -> nat {
    340282366920938463463374607431768211456nat
}

/// A field element: 32 big-endian bytes. Elements made by `starknet` hold a
/// value below the prime (`wf`); raw 256-bit words read from an event stream
/// need not.
pub struct Felt {
    pub bytes: Vec<u8>,
}

impl View for Felt {
    type V = Seq<u8>;

    open spec fn view(&self) -> Seq<u8> {
        self.bytes@
    }
}

impl Felt {
    pub open spec fn value(&self) -> nat {
        be_value(self.bytes@)
    }

    pub open spec fn wf(&self) -> bool {
        self.bytes@.len() == 32 && self.value() < felt_prime()
    }

    pub open spec fn is_word(&self) -> bool {
        self.bytes@.len() == 32
    }
}

/// Value of a string of hexadecimal digits.
pub open spec fn hex_value(s: Seq<char>) -> nat
    decreases s.len(),
{
    if s.len() == 0 {
        0
    } else {
        hex_value(s.drop_last()) * 16 + match hex_digit_value(s.last()) {
            Some(d) => d,
            None => 0,
        }
    }
}

pub open spec fn all_hex_digits(s: Seq<char>) -> bool {
    forall|i: int| 0 <= i < s.len() ==> (#[trigger] hex_digit_value(s[i])) is Some
}

/// When `FieldElement::from_hex_be` accepts a string: after every leading
/// "0x" is removed, at most 64 hex digits whose value is below the prime.
pub open spec fn hex_felt_ok(s: Seq<char>) -> bool {
    let t = trim_0x(s);
    &&& all_hex_digits(t)
    &&& t.len() <= 64
    &&& hex_value(t) < felt_prime()
}

/// `starknet_keccak` of an ASCII name: the entry-point selector.
pub uninterp spec fn starknet_keccak_name(name: Seq<char>) -> nat;

pub open spec fn is_ascii_name(name: Seq<char>) -> bool {
    forall|i: int| 0 <= i < name.len() ==> (#[trigger] name[i]) as nat <= 127
}

/// `FieldElement::from_hex_be`: parses an optional run of "0x" prefixes and
/// up to 64 hex digits of either case; fails on any other character and on
/// values not below the prime.
#[verifier::external_body]
pub fn felt_from_hex(s: &str) -> (r: Option<Felt>)
    ensures
        r is Some <==> hex_felt_ok(s@),
        r matches Some(f) ==> f.wf() && f.value() == hex_value(trim_0x(s@)),
{
    match starknet::core::types::FieldElement::from_hex_be(s) {
        Ok(f) => Some(Felt { bytes: f.to_bytes_be().to_vec() }),
        Err(_) => None,
    }
}

/// `FieldElement::from(u64)`.
#[verifier::external_body]
pub fn felt_from_u64(x: u64) -> (r: Felt)
    ensures
        r.wf(),
        r.value() == x as nat,
{
    Felt { bytes: starknet::core::types::FieldElement::from(x).to_bytes_be().to_vec() }
}

/// `FieldElement::from_byte_slice_be` on the minimal big-endian bytes of a
/// natural (`BigUint::to_bytes_be`): fails when the value is not below the prime.
#[verifier::external_body]
pub fn felt_from_nat(n: &Nat) -> (r: Option<Felt>)
    ensures
        r is Some <==> n@ < felt_prime(),
        r matches Some(f) ==> f.wf() && f.value() == n@,
{
    match starknet::core::types::FieldElement::from_byte_slice_be(&BigUint::from_bytes_be(&n.be).to_bytes_be()) {
        Ok(f) => Some(Felt { bytes: f.to_bytes_be().to_vec() }),
        Err(_) => None,
    }
}

/// `FieldElement::from_bytes_be` on a 32-byte word: fails when the word is
/// not below the prime.
#[verifier::external_body]
pub fn felt_from_word(w: &Felt) -> (r: Option<Felt>)
    requires
        w.is_word(),
    ensures
        r is Some <==> w.value() < felt_prime(),
        r matches Some(f) ==> f.wf() && f@ == w@,
{
    let mut a = [0u8; 32];
    a.copy_from_slice(&w.bytes);
    match starknet::core::types::FieldElement::from_bytes_be(&a) {
        Ok(f) => Some(Felt { bytes: f.to_bytes_be().to_vec() }),
        Err(_) => None,
    }
}

/// Field addition, `FieldElement + FieldElement`.
#[verifier::external_body]
pub fn felt_add(a: &Felt, b: &Felt) -> (r: Felt)
    requires
        a.wf(),
        b.wf(),
    ensures
        r.wf(),
        r.value() == (a.value() + b.value()) % felt_prime(),
{
    let x = starknet::core::types::FieldElement::from_byte_slice_be(&a.bytes).unwrap();
    let y = starknet::core::types::FieldElement::from_byte_slice_be(&b.bytes).unwrap();
    Felt { bytes: (x + y).to_bytes_be().to_vec() }
}

/// `FieldElement`'s `Display`: the decimal digits of the value.
#[verifier::external_body]
pub fn felt_to_decimal(f: &Felt) -> (r: String)
    requires
        f.wf(),
    ensures
        r@ == decimal_text(f.value()),
{
    starknet::core::types::FieldElement::from_byte_slice_be(&f.bytes).unwrap().to_string()
}

/// `BigUint::from_bytes_be(..).to_string()`: decimal digits of a 256-bit word.
#[verifier::external_body]
pub fn word_to_decimal(w: &Felt) -> (r: String)
    ensures
        r@ == decimal_text(w.value()),
{
    BigUint::from_bytes_be(&w.bytes).to_string()
}

/// `get_selector_from_name`: zero for the two default entry points, the
/// Starknet keccak of the name for other ASCII names, an error otherwise.
#[verifier::external_body]
pub fn selector_from_name(name: &str) -> (r: Option<Felt>)
    ensures
        r is Some <==> (is_ascii_name(name@) || name@ == seq!['_', '_', 'd', 'e', 'f', 'a', 'u',
            'l', 't', '_', '_'] || name@ == seq!['_', '_', 'l', '1', '_', 'd', 'e', 'f', 'a',
            'u', 'l', 't', '_', '_']),
        r matches Some(f) ==> f.wf() && (is_ascii_name(name@) && name@ != seq!['_', '_', 'd',
            'e', 'f', 'a', 'u', 'l', 't', '_', '_'] && name@ != seq!['_', '_', 'l', '1', '_',
            'd', 'e', 'f', 'a', 'u', 'l', 't', '_', '_'] ==> f.value() == starknet_keccak_name(
            name@)),
{
    match starknet::core::utils::get_selector_from_name(name) {
        Ok(f) => Some(Felt { bytes: f.to_bytes_be().to_vec() }),
        Err(_) => None,
    }
}

/// Equal-length big-endian strings with equal values are equal.
pub proof fn lemma_be_value_injective(s: Seq<u8>, t: Seq<u8>)
    requires
        s.len() == t.len(),
        be_value(s) == be_value(t),
    ensures
        s == t,
    decreases s.len(),
{
    if s.len() > 0 {
        let x = be_value(s.drop_last());
        let y = be_value(t.drop_last());
        let a = s.last() as int;
        let b = t.last() as int;
        assert(a == b && x == y) by (nonlinear_arith)
            requires
                x * 256 + a == y * 256 + b,
                0 <= a < 256,
                0 <= b < 256,
                x >= 0,
                y >= 0,
        ;
        lemma_be_value_injective(s.drop_last(), t.drop_last());
        assert(s =~= s.drop_last().push(s.last()));
        assert(t =~= t.drop_last().push(t.last()));
    }
}

/// Byte-wise equality of two field elements.
pub fn felt_eq(a: &Felt, b: &Felt) -> (r: bool)
    ensures
        r == (a@ == b@),
{
    if a.bytes.len() != b.bytes.len() {
        return false;
    }
    let mut i: usize = 0;
    while i < a.bytes.len()
        invariant
            a.bytes@.len() == b.bytes@.len(),
            i <= a.bytes@.len(),
            forall|j: int| 0 <= j < i ==> a.bytes@[j] == b.bytes@[j],
        decreases a.bytes.len() - i,
    {
        if a.bytes[i] != b.bytes[i] {
            return false;
        }
        i = i + 1;
    }
    assert(a.bytes@ =~= b.bytes@);
    true
}

impl Felt {
    pub fn copy(&self) -> (r: Felt)
        ensures
            r@ == self@,
    {
        Felt { bytes: self.bytes.clone() }
    }

    pub fn zero() -> (r: Felt)
        ensures
            r.wf(),
            r.value() == 0,
    {
        felt_from_u64(0)
    }

    pub fn one() -> (r: Felt)
        ensures
            r.wf(),
            r.value() == 1,
    {
        felt_from_u64(1)
    }

    /// The element as a non-negative integer.
    pub fn to_nat(&self) -> (r: Nat)
        ensures
            r@ == self.value(),
    {
        Nat { be: self.bytes.clone() }
    }
}

/// "0x" followed by two lower-case hex digits per byte.
pub open spec fn felt_hex_text(bytes: Seq<u8>) -> Seq<char> {
    seq!['0', 'x'] + hex_text(bytes)
}

/// `to_hex`: "0x" and the 64 lower-case hex digits of the element's bytes.
pub fn to_hex(felt: &Felt) -> (r: String)
    ensures
        r@ == felt_hex_text(felt@),
{
    let mut out = new_string();
    push_char(&mut out, '0');
    push_char(&mut out, 'x');
    push_hex_bytes(&mut out, &felt.bytes);
    out
}

pub fn two_pow_128_nat() -> (r: Nat)
    ensures
        r@ == two_pow_128(),
{
    let t = crate::num::nat_from_u64(0x1_0000_0000);
    let t2 = t.mul(&t);
    let t4 = t2.mul(&t2);
    assert(4294967296nat * 4294967296nat * (4294967296nat * 4294967296nat) == two_pow_128())
        by (nonlinear_arith);
    t4
}

/// When `to_uint256` succeeds: the high half must be a field element.
pub open spec fn uint256_splittable(n: int) -> bool {
    abs(n) / two_pow_128() < felt_prime()
}

/// `to_uint256`: the low and high 128-bit halves of the magnitude.
pub fn to_uint256(n: &Int) -> (r: (Felt, Felt))
    requires
        uint256_splittable(n@),
    ensures
        r.0.wf(),
        r.1.wf(),
        r.0.value() == abs(n@) % two_pow_128(),
        r.1.value() == abs(n@) / two_pow_128(),
{
    let base = two_pow_128_nat();
    let (high, low) = n.magnitude.div_rem(&base);
    assert(abs(n@) == n.magnitude@);
    assert(low@ < felt_prime());
    let l = felt_from_nat(&low);
    let h = felt_from_nat(&high);
    (l.unwrap(), h.unwrap())
}

/// `from_uint256`: high * 2^128 + low.
pub fn from_uint256(low: &Felt, high: &Felt) -> (r: Int)
    ensures
        r@ == high.value() * two_pow_128() + low.value(),
{
    let base = two_pow_128_nat();
    let v = high.to_nat().mul(&base).add(&low.to_nat());
    Int::from_nat(v)
}

/// Splitting an amount with `to_uint256` and joining the halves with
/// `from_uint256` gives back its magnitude.
pub proof fn lemma_uint256_roundtrip(n: int)
    ensures
        (abs(n) / two_pow_128()) * two_pow_128() + abs(n) % two_pow_128() == abs(n),
{
    let m = abs(n) as int;
    let t = two_pow_128() as int;
    assert(t > 0);
    assert((m / t) * t + m % t == m) by (nonlinear_arith)
        requires
            t > 0,
    ;
}

/// Layout of `hex_text`: two digits per byte, high nibble first.
pub proof fn lemma_hex_text_layout(b: Seq<u8>)
    ensures
        hex_text(b).len() == 2 * b.len(),
        forall|i: int|
            0 <= i < b.len() ==> hex_text(b)[2 * i] == crate::text::hex_char(b[i] as nat / 16)
                && hex_text(b)[2 * i + 1] == crate::text::hex_char(b[i] as nat % 16),
    decreases b.len(),
{
    if b.len() > 0 {
        lemma_hex_text_layout(b.drop_last());
        assert forall|i: int| 0 <= i < b.len() implies hex_text(b)[2 * i]
            == crate::text::hex_char(b[i] as nat / 16) && hex_text(b)[2 * i + 1]
            == crate::text::hex_char(b[i] as nat % 16) by {
            if i < b.len() - 1 {
                assert(b.drop_last()[i] == b[i]);
            }
        }
    }
}

proof fn lemma_hex_char_value(n: nat)
    requires
        n < 16,
    ensures
        hex_digit_value(crate::text::hex_char(n)) == Some(n),
{
}

/// The hex digits of a byte string read back as its value.
pub proof fn lemma_hex_text_value(b: Seq<u8>)
    ensures
        hex_value(hex_text(b)) == be_value(b),
        all_hex_digits(hex_text(b)),
    decreases b.len(),
{
    if b.len() > 0 {
        let x = hex_text(b.drop_last());
        lemma_hex_text_value(b.drop_last());
        let byte = b.last() as nat;
        let h = byte / 16;
        let l = byte % 16;
        lemma_hex_char_value(h);
        lemma_hex_char_value(l);
        let y = x.push(crate::text::hex_char(h));
        let z = y.push(crate::text::hex_char(l));
        assert(z.drop_last() =~= y);
        assert(y.drop_last() =~= x);
        assert(hex_value(z) == hex_value(x) * 256 + byte) by (nonlinear_arith)
            requires
                hex_value(z) == hex_value(y) * 16 + l,
                hex_value(y) == hex_value(x) * 16 + h,
                byte == h * 16 + l,
        ;
        assert forall|i: int| 0 <= i < z.len() implies (#[trigger] hex_digit_value(z[i])) is Some by {
            if i < x.len() {
                assert(z[i] == x[i]);
            }
        }
    }
}

/// `to_hex` of an element reads back, through `FieldElement::from_hex_be`,
/// as the same element.
pub proof fn lemma_hex_roundtrip(f: Felt)
    requires
        f.wf(),
    ensures
        hex_felt_ok(felt_hex_text(f@)),
        trim_0x(felt_hex_text(f@)) == hex_text(f@),
        hex_value(trim_0x(felt_hex_text(f@))) == f.value(),
{
    let t = hex_text(f@);
    lemma_hex_text_layout(f@);
    lemma_hex_text_value(f@);
    let s = felt_hex_text(f@);
    assert(s.subrange(2, s.len() as int) =~= t);
    assert(t[1] != 'x') by {
        let n = f@[0] as nat % 16;
        assert(t[2 * 0int + 1] == crate::text::hex_char(n));
    }
    assert(trim_0x(t) == t);
}

} // verus!
