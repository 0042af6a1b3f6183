//! Scalars and points of the Ristretto group, held as canonical 32-byte encodings.
//!
//! A scalar is viewed as its integer value below the group order; a point is
//! viewed as its discrete logarithm with respect to the Ristretto basepoint.
//! The group is cyclic of prime order, so every group operation becomes
//! arithmetic modulo the group order on these views.

use vstd::prelude::*;
use curve25519_dalek_ng::constants::RISTRETTO_BASEPOINT_POINT;
use curve25519_dalek_ng::ristretto::{CompressedRistretto, RistrettoPoint};
use curve25519_dalek_ng::scalar::Scalar as DalekScalar;
use curve25519_dalek_ng::traits::MultiscalarMul;
use rand::rngs::ThreadRng;

verus! {

/// The prime order of the Ristretto group, which is also the modulus of the scalar field.
pub open spec fn group_order() -> int {
    // 2^252 + 27742317777372353535851937790883648493
    (85070591730234615865843651857942052864 as int) * (85070591730234615865843651857942052864 as int)
        + (27742317777372353535851937790883648493 as int)
}

/// The integer that a byte string denotes when read little-endian.
pub open spec fn le_value(b: Seq<u8>) -> nat
    decreases b.len(),
{
    if b.len() == 0 {
        0
    } else {
        b[0] as nat + 256 * le_value(b.drop_first())
    }
}

/// The canonical compressed encoding of `k` times the Ristretto basepoint.
pub uninterp spec fn ristretto_encoding(k: int) -> Seq<u8>;

/// The discrete logarithm, with respect to the Ristretto basepoint and taken in
/// `[0, group_order())`, of the point that a canonical encoding denotes.
pub uninterp spec fn ristretto_dlog(enc: Seq<u8>) -> int;

#[verifier::external_type_specification]
#[verifier::external_body]
pub struct ExThreadRng(ThreadRng);

/// An element of the scalar field, as its canonical little-endian encoding.
#[derive(Clone, Copy, Debug, PartialEq, Eq)]
pub struct Scalar {
    pub bytes: [u8; 32],
}

impl View for Scalar {
    type V = int;

    open spec fn view(&self) -> int {
        le_value(self.bytes@) as int
    }
}

impl Scalar {
    /// The encoding is canonical: its value lies below the group order.
    pub open spec fn wf(&self) -> bool {
        self@ < group_order()
    }
}

/// An element of the Ristretto group, as its canonical compressed encoding.
#[derive(Clone, Copy, Debug, PartialEq, Eq)]
pub struct Point {
    pub enc: [u8; 32],
}

impl View for Point {
    type V = int;

    open spec fn view(&self) -> int {
        ristretto_dlog(self.enc@)
    }
}

impl Point {
    /// The bytes are the canonical encoding of the point they denote.
    pub open spec fn wf(&self) -> bool {
        0 <= self@ < group_order() && self.enc@ == ristretto_encoding(self@)
    }
}

/// Relies on `Scalar::random` of curve25519-dalek-ng: a uniformly drawn scalar,
/// reduced below the group order.
#[verifier::external_body]
pub(crate) fn random_scalar(rng: &mut ThreadRng) -> (r: Scalar)
    ensures
        r.wf(),
{
    Scalar { bytes: DalekScalar::random(rng).to_bytes() }
}

/// Relies on `Scalar::from_bytes_mod_order`: the 256-bit little-endian integer
/// reduced modulo the group order.
#[verifier::external_body]
pub(crate) fn scalar_from_bytes_mod_order(b: [u8; 32]) -> (r: Scalar)
    ensures
        r@ == (le_value(b@) as int) % group_order(),
        r.wf(),
{
    Scalar { bytes: DalekScalar::from_bytes_mod_order(b).to_bytes() }
}

/// Relies on `Scalar::from_canonical_bytes`: it accepts exactly the encodings of
/// integers below the group order, and keeps them as they are.
#[verifier::external_body]
fn scalar_from_canonical_bytes(b: [u8; 32]) -> (r: Option<Scalar>)
    ensures
        r.is_some() == (le_value(b@) < group_order()),
        r.is_some() ==> r.unwrap().bytes@ == b@,
{
    DalekScalar::from_canonical_bytes(b).map(|s| Scalar { bytes: s.to_bytes() })
}

/// Relies on scalar addition (`+`) of curve25519-dalek-ng, which is modulo the group order.
#[verifier::external_body]
fn scalar_add(a: &Scalar, b: &Scalar) -> (r: Scalar)
    requires
        a.wf(),
        b.wf(),
    ensures
        r@ == (a@ + b@) % group_order(),
        r.wf(),
{
    Scalar { bytes: (DalekScalar::from_bits(a.bytes) + DalekScalar::from_bits(b.bytes)).to_bytes() }
}

/// Relies on scalar multiplication (`*`) of curve25519-dalek-ng, which is modulo the group order.
#[verifier::external_body]
fn scalar_mul(a: &Scalar, b: &Scalar) -> (r: Scalar)
    requires
        a.wf(),
        b.wf(),
    ensures
        r@ == (a@ * b@) % group_order(),
        r.wf(),
{
    Scalar { bytes: (DalekScalar::from_bits(a.bytes) * DalekScalar::from_bits(b.bytes)).to_bytes() }
}

/// Relies on scalar negation (unary `-`) of curve25519-dalek-ng, which is modulo the group order.
#[verifier::external_body]
fn scalar_neg(a: &Scalar) -> (r: Scalar)
    requires
        a.wf(),
    ensures
        r@ == (-a@) % group_order(),
        r.wf(),
{
    Scalar { bytes: (-DalekScalar::from_bits(a.bytes)).to_bytes() }
}

/// Relies on `Scalar::invert`, documented for nonzero scalars: the multiplicative
/// inverse modulo the group order.
#[verifier::external_body]
fn scalar_invert(a: &Scalar) -> (r: Scalar)
    requires
        a.wf(),
        a@ != 0,
    ensures
        (a@ * r@) % group_order() == 1,
        r.wf(),
{
    Scalar { bytes: DalekScalar::from_bits(a.bytes).invert().to_bytes() }
}

/// Relies on `RistrettoPoint::random`: a point of the group, in canonical encoding.
#[verifier::external_body]
pub(crate) fn random_point(rng: &mut ThreadRng) -> (r: Point)
    ensures
        r.wf(),
{
    Point { enc: RistrettoPoint::random(rng).compress().to_bytes() }
}

/// Relies on `CompressedRistretto::decompress`, which accepts exactly the canonical
/// encodings of group elements, and on `compress`, which gives that encoding back.
#[verifier::external_body]
fn point_decode(b: [u8; 32]) -> (r: Option<Point>)
    ensures
        r.is_some() == (exists|k: int| 0 <= k < group_order() && b@ == ristretto_encoding(k)),
        r.is_some() ==> r.unwrap().enc@ == b@,
        r.is_some() ==> r.unwrap().enc@ == ristretto_encoding(ristretto_dlog(r.unwrap().enc@)),
        r.is_some() ==> 0 <= ristretto_dlog(r.unwrap().enc@) < group_order(),
{
    CompressedRistretto(b).decompress().map(|p| Point { enc: p.compress().to_bytes() })
}

/// Relies on the product of `RISTRETTO_BASEPOINT_POINT` by a scalar (`*`).
#[verifier::external_body]
fn point_mul_base(s: &Scalar) -> (r: Point)
    requires
        s.wf(),
    ensures
        r@ == s@,
        r.wf(),
{
    Point { enc: (RISTRETTO_BASEPOINT_POINT * DalekScalar::from_bits(s.bytes)).compress().to_bytes() }
}

/// Relies on point addition (`+`) of decompressed Ristretto points.
#[verifier::external_body]
fn point_add(p: &Point, q: &Point) -> (r: Point)
    requires
        p.wf(),
        q.wf(),
    ensures
        r@ == (p@ + q@) % group_order(),
        r.wf(),
{
    let a = CompressedRistretto(p.enc).decompress().unwrap();
    let b = CompressedRistretto(q.enc).decompress().unwrap();
    Point { enc: (a + b).compress().to_bytes() }
}

/// Relies on point subtraction (`-`) of decompressed Ristretto points.
#[verifier::external_body]
fn point_sub(p: &Point, q: &Point) -> (r: Point)
    requires
        p.wf(),
        q.wf(),
    ensures
        r@ == (p@ - q@) % group_order(),
        r.wf(),
{
    let a = CompressedRistretto(p.enc).decompress().unwrap();
    let b = CompressedRistretto(q.enc).decompress().unwrap();
    Point { enc: (a - b).compress().to_bytes() }
}

/// Relies on the product of a decompressed Ristretto point by a scalar (`*`).
#[verifier::external_body]
fn point_mul(p: &Point, s: &Scalar) -> (r: Point)
    requires
        p.wf(),
        s.wf(),
    ensures
        r@ == (p@ * s@) % group_order(),
        r.wf(),
{
    let a = CompressedRistretto(p.enc).decompress().unwrap();
    Point { enc: (a * DalekScalar::from_bits(s.bytes)).compress().to_bytes() }
}

/// Relies on `RistrettoPoint::multiscalar_mul` for three terms: the sum of the
/// points weighted by the scalars.
#[verifier::external_body]
fn point_msm3(s: [Scalar; 3], p: [Point; 3]) -> (r: Point)
    requires
        forall|i: int| 0 <= i < 3 ==> (#[trigger] s[i]).wf() && (#[trigger] p[i]).wf(),
    ensures
        r@ == (s[0]@ * p[0]@ + s[1]@ * p[1]@ + s[2]@ * p[2]@) % group_order(),
        r.wf(),
{
    let ks = [DalekScalar::from_bits(s[0].bytes), DalekScalar::from_bits(s[1].bytes), DalekScalar::from_bits(s[2].bytes)];
    let c = |q: &Point| CompressedRistretto(q.enc).decompress().unwrap();
    let ps = [c(&p[0]), c(&p[1]), c(&p[2])];
    Point { enc: RistrettoPoint::multiscalar_mul(ks, ps).compress().to_bytes() }
}

/// Two 32-byte strings are equal.
fn bytes_eq(a: &[u8; 32], b: &[u8; 32]) -> (r: bool)
    ensures
        r == (a@ == b@),
{
    let mut i: usize = 0;
    while i < 32
        invariant
            0 <= i <= 32,
            forall|k: int| 0 <= k < i ==> a@[k] == b@[k],
        decreases 32 - i,
    {
        if a[i] != b[i] {
            return false;
        }
        i += 1;
    }
    assert(a@ =~= b@);
    true
}

/// A byte string whose entries are all zero denotes zero.
proof fn lemma_le_value_zeros(b: Seq<u8>)
    requires
        forall|i: int| 0 <= i < b.len() ==> b[i] == 0,
    ensures
        le_value(b) == 0,
    decreases b.len(),
{
    if b.len() > 0 {
        lemma_le_value_zeros(b.drop_first());
    }
}

/// Byte strings of one length that denote the same integer are equal.
pub proof fn lemma_le_value_injective(a: Seq<u8>, b: Seq<u8>)
    requires
        a.len() == b.len(),
        le_value(a) == le_value(b),
    ensures
        a == b,
    decreases a.len(),
{
    if a.len() > 0 {
        let x = le_value(a.drop_first());
        let y = le_value(b.drop_first());
        let a0 = a[0] as int;
        let b0 = b[0] as int;
        assert(a0 + 256 * x == b0 + 256 * y);
        assert(a0 == b0 && x == y) by (nonlinear_arith)
            requires
                a0 + 256 * x == b0 + 256 * y,
                0 <= a0 < 256,
                0 <= b0 < 256,
        ;
        lemma_le_value_injective(a.drop_first(), b.drop_first());
        assert(a =~= seq![a[0]] + a.drop_first());
        assert(b =~= seq![b[0]] + b.drop_first());
    }
}

impl Scalar {
    /// A uniformly random scalar.
    pub fn random(rng: &mut ThreadRng) -> (r: Scalar)
        ensures
            r.wf(),
    {
        random_scalar(rng)
    }

    /// The scalar one.
    pub fn one() -> (r: Scalar)
        ensures
            r@ == 1,
            r.wf(),
    {
        let r = Scalar {
            bytes: [
                1u8, 0u8, 0u8, 0u8, 0u8, 0u8, 0u8, 0u8, 0u8, 0u8, 0u8, 0u8, 0u8, 0u8, 0u8, 0u8,
                0u8, 0u8, 0u8, 0u8, 0u8, 0u8, 0u8, 0u8, 0u8, 0u8, 0u8, 0u8, 0u8, 0u8, 0u8, 0u8,
            ],
        };
        proof {
            lemma_le_value_zeros(r.bytes@.drop_first());
        }
        r
    }

    /// The 256-bit little-endian integer `b`, reduced modulo the group order.
    pub fn from_bytes_mod_order(b: [u8; 32]) -> (r: Scalar)
        ensures
            r@ == (le_value(b@) as int) % group_order(),
            r.wf(),
    {
        scalar_from_bytes_mod_order(b)
    }

    /// Decodes a canonical encoding; any other byte string is malformed and refused.
    pub fn from_canonical_bytes(b: [u8; 32]) -> (r: Option<Scalar>)
        ensures
            r.is_some() == (le_value(b@) < group_order()),
            r.is_some() ==> r.unwrap().bytes@ == b@ && r.unwrap().wf(),
    {
        scalar_from_canonical_bytes(b)
    }

    /// The canonical little-endian encoding.
    pub fn to_bytes(&self) -> (r: [u8; 32])
        ensures
            r@ == self.bytes@,
    {
        self.bytes
    }

    /// The sum modulo the group order.
    pub fn sum(&self, o: &Scalar) -> (r: Scalar)
        requires
            self.wf(),
            o.wf(),
        ensures
            r@ == (self@ + o@) % group_order(),
            r.wf(),
    {
        scalar_add(self, o)
    }

    /// The product modulo the group order.
    pub fn product(&self, o: &Scalar) -> (r: Scalar)
        requires
            self.wf(),
            o.wf(),
        ensures
            r@ == (self@ * o@) % group_order(),
            r.wf(),
    {
        scalar_mul(self, o)
    }

    /// The additive inverse modulo the group order.
    pub fn negate(&self) -> (r: Scalar)
        requires
            self.wf(),
        ensures
            r@ == (-self@) % group_order(),
            r.wf(),
    {
        scalar_neg(self)
    }

    /// The multiplicative inverse of a nonzero scalar.
    pub fn invert(&self) -> (r: Scalar)
        requires
            self.wf(),
            self@ != 0,
        ensures
            (self@ * r@) % group_order() == 1,
            r.wf(),
    {
        scalar_invert(self)
    }

    /// Whether the two scalars are the same field element.
    pub fn equals(&self, o: &Scalar) -> (r: bool)
        requires
            self.wf(),
            o.wf(),
        ensures
            r == (self@ == o@),
    {
        proof {
            if self@ == o@ {
                lemma_le_value_injective(self.bytes@, o.bytes@);
            }
        }
        bytes_eq(&self.bytes, &o.bytes)
    }

    /// Whether this is the scalar zero.
    pub fn is_zero(&self) -> (r: bool)
        requires
            self.wf(),
        ensures
            r == (self@ == 0),
    {
        let z = Scalar { bytes: [0u8; 32] };
        proof {
            assert forall|i: int| 0 <= i < 32 implies z.bytes@[i] == 0 by {}
            lemma_le_value_zeros(z.bytes@);
        }
        self.equals(&z)
    }
}

impl Point {
    /// A uniformly random group element.
    pub fn random(rng: &mut ThreadRng) -> (r: Point)
        ensures
            r.wf(),
    {
        random_point(rng)
    }

    /// The basepoint multiplied by `s`.
    pub fn mul_base(s: &Scalar) -> (r: Point)
        requires
            s.wf(),
        ensures
            r@ == s@,
            r.wf(),
    {
        point_mul_base(s)
    }

    /// Decodes a canonical encoding; any other byte string is malformed and refused.
    pub fn from_bytes(b: [u8; 32]) -> (r: Option<Point>)
        ensures
            r.is_some() == (exists|k: int| 0 <= k < group_order() && b@ == ristretto_encoding(k)),
            r.is_some() ==> r.unwrap().enc@ == b@ && r.unwrap().wf(),
    {
        point_decode(b)
    }

    /// The canonical compressed encoding.
    pub fn to_bytes(&self) -> (r: [u8; 32])
        ensures
            r@ == self.enc@,
    {
        self.enc
    }

    /// The sum of two points.
    pub fn sum(&self, o: &Point) -> (r: Point)
        requires
            self.wf(),
            o.wf(),
        ensures
            r@ == (self@ + o@) % group_order(),
            r.wf(),
    {
        point_add(self, o)
    }

    /// The difference of two points.
    pub fn difference(&self, o: &Point) -> (r: Point)
        requires
            self.wf(),
            o.wf(),
        ensures
            r@ == (self@ - o@) % group_order(),
            r.wf(),
    {
        point_sub(self, o)
    }

    /// The point multiplied by a scalar.
    pub fn scale(&self, s: &Scalar) -> (r: Point)
        requires
            self.wf(),
            s.wf(),
        ensures
            r@ == (self@ * s@) % group_order(),
            r.wf(),
    {
        point_mul(self, s)
    }

    /// The weighted sum of three points.
    pub fn multiscalar_mul(s: [Scalar; 3], p: [Point; 3]) -> (r: Point)
        requires
            forall|i: int| 0 <= i < 3 ==> (#[trigger] s[i]).wf() && (#[trigger] p[i]).wf(),
        ensures
            r@ == (s[0]@ * p[0]@ + s[1]@ * p[1]@ + s[2]@ * p[2]@) % group_order(),
            r.wf(),
    {
        point_msm3(s, p)
    }

    /// Whether the two points are the same group element.
    pub fn equals(&self, o: &Point) -> (r: bool)
        requires
            self.wf(),
            o.wf(),
        ensures
            r == (self@ == o@),
    {
        bytes_eq(&self.enc, &o.enc)
    }
}

/// `a` and `b` are equal modulo the group order.
pub open spec fn cong(a: int, b: int) -> bool {
    a % group_order() == b % group_order()
}

pub proof fn lemma_cong_add(a: int, b: int, c: int, d: int)
    requires
        cong(a, b),
        cong(c, d),
    ensures
        cong(a + c, b + d),
{
    vstd::arithmetic::div_mod::lemma_add_mod_noop(a, c, group_order());
    vstd::arithmetic::div_mod::lemma_add_mod_noop(b, d, group_order());
}

pub proof fn lemma_cong_sub(a: int, b: int, c: int, d: int)
    requires
        cong(a, b),
        cong(c, d),
    ensures
        cong(a - c, b - d),
{
    vstd::arithmetic::div_mod::lemma_sub_mod_noop(a, c, group_order());
    vstd::arithmetic::div_mod::lemma_sub_mod_noop(b, d, group_order());
}

pub proof fn lemma_cong_mul(a: int, b: int, c: int, d: int)
    requires
        cong(a, b),
        cong(c, d),
    ensures
        cong(a * c, b * d),
{
    vstd::arithmetic::div_mod::lemma_mul_mod_noop(a, c, group_order());
    vstd::arithmetic::div_mod::lemma_mul_mod_noop(b, d, group_order());
}

/// A value reduced modulo the group order is congruent to the value.
pub proof fn lemma_cong_mod(a: int)
    ensures
        cong(a % group_order(), a),
{
    vstd::arithmetic::div_mod::lemma_mod_twice(a, group_order());
}

/// Congruent values that both lie in `[0, group_order())` are equal.
pub proof fn lemma_cong_small(a: int, b: int)
    requires
        cong(a, b),
        0 <= a < group_order(),
        0 <= b < group_order(),
    ensures
        a == b,
{
    vstd::arithmetic::div_mod::lemma_small_mod(a as nat, group_order() as nat);
    vstd::arithmetic::div_mod::lemma_small_mod(b as nat, group_order() as nat);
}

} // verus!
